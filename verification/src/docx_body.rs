//! The body of a chapter in DOCX output, as a state machine over the
//! chapter's Markdown events: paragraphs with their runs, links, lists,
//! quotes, code blocks, images and tables.

use vstd::prelude::*;
use crate::book::ChapterInfo;
use crate::docx_code::{code_block_lines, code_lines_view, covers_lines, pieces_from, plain_code_lines, plain_lines_v, split_char, CodeHighlighter};
use crate::docx_model::{
    blocks_view, Block, BlockV, ImageRef, ImageRefV, LinkTarget, LinkTargetV, Paragraph, ParagraphItem,
    ParagraphItemV, ParagraphV, Run, RunItem, RunItemV, RunV,
};
use crate::docx_parts::{
    block_props, block_properties, bookmark_view, code_paragraph, code_paragraph_v, code_runs_view,
    hyperlink, paragraph_from_text, text_run, text_run_v, BookmarkRef, CodeRun, CodeStyleV, RunStyle,
};
use crate::docx_registry::{chapter_mark, drawing, link_target_of, ordered_numbering, DocxRegistry, RegistryV};
use crate::docx_style::{DocxStyles, ParagraphKind};
use crate::docx_table::{
    end_cell_v, end_row_v, new_table_v, start_cell_v, start_row_v, table_of, TableBuildV, TableBuilder,
};
use crate::heading_number::clamp;
use crate::markdown::{event_level_ok, markdown_events, MdEvent, MdTag, MdTagEnd};
use crate::text::{chars_of, push_char, push_str, string_of, string_views, to_string, trim, trim_chars};
use crate::typst_render::code_lang;

verus! {

/// The numbering instance of bullet lists.
pub const BULLET_NUM_ID: i32 = 1;
/// The numbering instance of checked task list items.
pub const TASK_DONE_NUM_ID: i32 = 3;
/// The numbering instance of open task list items.
pub const TASK_TODO_NUM_ID: i32 = 4;

pub open spec fn targets_view(v: Seq<LinkTarget>) -> Seq<LinkTargetV> {
    Seq::new(v.len(), |i: int| v[i]@)
}

/// A paragraph being built: its items so far, how deep inside bold, italic
/// and strikethrough the text is, its style and kind, its quote and list
/// depth and list numbering, the links around the text, and the bookmark
/// it opens with.
#[verifier::ext_equal]
pub struct ParaV {
    pub runs: Seq<ParagraphItemV>,
    pub bold: usize,
    pub italic: usize,
    pub strike: usize,
    pub style: Option<Seq<char>>,
    pub kind: ParagraphKind,
    pub quote_depth: usize,
    pub list_depth: Option<usize>,
    pub numbering: Option<i32>,
    pub links: Seq<LinkTargetV>,
    pub bookmark: Option<(Seq<char>, Seq<char>)>,
}

pub open spec fn empty_para() -> ParaV {
    ParaV {
        runs: seq![],
        bold: 0,
        italic: 0,
        strike: 0,
        style: None,
        kind: ParagraphKind::Normal,
        quote_depth: 0,
        list_depth: None,
        numbering: None,
        links: seq![],
        bookmark: None,
    }
}

/// The paragraph style of a block kind.
pub open spec fn block_style_of(styles: DocxStyles, kind: ParagraphKind) -> Option<Seq<char>> {
    match kind {
        ParagraphKind::Code => Some(styles.code@),
        ParagraphKind::List => Some(styles.list@),
        ParagraphKind::Quote => Some(styles.quote@),
        ParagraphKind::Normal => None,
    }
}

pub open spec fn block_para(styles: DocxStyles, kind: ParagraphKind, quote_depth: usize, list_depth: Option<usize>) -> ParaV {
    ParaV { style: block_style_of(styles, kind), kind, quote_depth, list_depth, ..empty_para() }
}

pub open spec fn heading_para(styles: DocxStyles, level: int) -> ParaV {
    ParaV { style: Some(styles.headings@[clamp(level, 1, 9) - 1]@), ..empty_para() }
}

/// The formatting of the next text: bold, italic or struck through inside
/// such elements, code in code paragraphs, a hyperlink inside a link.
pub open spec fn current_style(p: ParaV) -> RunStyle {
    RunStyle {
        bold: p.bold > 0,
        italic: p.italic > 0,
        strike: p.strike > 0,
        code: p.kind == ParagraphKind::Code,
        hyperlink: p.links.len() > 0,
    }
}

/// A run holding a line break.
pub open spec fn break_run() -> RunV {
    RunV { props: None, item: RunItemV::Break }
}

/// A text run added, inside a hyperlink to the innermost link if any.
pub open spec fn push_text_run_v(p: ParaV, text: Seq<char>, style: RunStyle) -> ParaV {
    let r = text_run_v(text, style);
    ParaV {
        runs: p.runs.push(
            if p.links.len() > 0 {
                ParagraphItemV::Hyperlink(p.links.last(), seq![r])
            } else {
                ParagraphItemV::Run(r)
            },
        ),
        ..p
    }
}

/// Lines of text added: a break between lines, a run for each non-empty
/// line.
pub open spec fn push_lines_v(p: ParaV, lines: Seq<Seq<char>>, style: RunStyle) -> ParaV
    decreases lines.len(),
{
    if lines.len() == 0 {
        p
    } else {
        let q = push_lines_v(p, lines.drop_last(), style);
        let q = if lines.len() > 1 { ParaV { runs: q.runs.push(ParagraphItemV::Run(break_run())), ..q } } else { q };
        if lines.last().len() > 0 { push_text_run_v(q, lines.last(), style) } else { q }
    }
}

/// Adding lines changes only the items of a paragraph.
pub proof fn lemma_push_lines_fields(p: ParaV, lines: Seq<Seq<char>>, style: RunStyle)
    ensures
        push_lines_v(p, lines, style) == (ParaV { runs: push_lines_v(p, lines, style).runs, ..p }),
    decreases lines.len(),
{
    if lines.len() > 0 {
        lemma_push_lines_fields(p, lines.drop_last(), style);
    }
}

/// Text added with `style`, line by line; empty text adds nothing.
pub open spec fn push_run_v(p: ParaV, text: Seq<char>, style: RunStyle) -> ParaV {
    if text.len() == 0 { p } else { push_lines_v(p, pieces_from(text, '\n', 0), style) }
}

/// Text added with the current formatting.
pub open spec fn push_text_v(p: ParaV, text: Seq<char>) -> ParaV {
    push_run_v(p, text, current_style(p))
}

/// A paragraph being built.
pub struct ParagraphBuilder {
    pub runs: Vec<ParagraphItem>,
    pub bold: usize,
    pub italic: usize,
    pub strike: usize,
    pub style: Option<String>,
    pub kind: ParagraphKind,
    pub quote_depth: usize,
    pub list_depth: Option<usize>,
    pub numbering: Option<i32>,
    pub links: Vec<LinkTarget>,
    pub bookmark: Option<BookmarkRef>,
}

impl View for ParagraphBuilder {
    type V = ParaV;

    open spec fn view(&self) -> ParaV {
        ParaV {
            runs: crate::docx_model::items_view(self.runs@),
            bold: self.bold,
            italic: self.italic,
            strike: self.strike,
            style: crate::docx_model::opt_seq(self.style),
            kind: self.kind,
            quote_depth: self.quote_depth,
            list_depth: self.list_depth,
            numbering: self.numbering,
            links: targets_view(self.links@),
            bookmark: bookmark_view(self.bookmark),
        }
    }
}

impl ParagraphBuilder {
    /// A paragraph of normal text without a style.
    pub fn empty() -> (p: ParagraphBuilder)
        ensures
            p@ == empty_para(),
    {
        let p = ParagraphBuilder {
            runs: Vec::new(),
            bold: 0,
            italic: 0,
            strike: 0,
            style: None,
            kind: ParagraphKind::Normal,
            quote_depth: 0,
            list_depth: None,
            numbering: None,
            links: Vec::new(),
            bookmark: None,
        };
        assert(p@ =~= empty_para());
        p
    }

    /// A paragraph of a block of `kind` (see `block_para`).
    pub fn for_block(styles: &DocxStyles, kind: ParagraphKind, quote_depth: usize, list_depth: Option<usize>) -> (p: ParagraphBuilder)
        ensures
            p@ == block_para(*styles, kind, quote_depth, list_depth),
    {
        let mut p = ParagraphBuilder::empty();
        p.style = match styles.block_style(kind) {
            Some(s) => Some(to_string(s)),
            None => None,
        };
        p.kind = kind;
        p.quote_depth = quote_depth;
        p.list_depth = list_depth;
        assert(p@ =~= block_para(*styles, kind, quote_depth, list_depth));
        p
    }

    /// A heading paragraph of `level` (see `heading_para`).
    pub fn with_heading(level: usize, styles: &DocxStyles) -> (p: ParagraphBuilder)
        requires
            styles.wf(),
        ensures
            p@ == heading_para(*styles, level as int),
    {
        let mut p = ParagraphBuilder::empty();
        p.style = Some(to_string(styles.heading(level)));
        assert(p@ =~= heading_para(*styles, level as int));
        p
    }

    /// The formatting of the next text (see `current_style`).
    pub fn current_style(&self) -> (s: RunStyle)
        ensures
            s == current_style(self@),
    {
        RunStyle {
            bold: self.bold > 0,
            italic: self.italic > 0,
            strike: self.strike > 0,
            code: match self.kind {
                ParagraphKind::Code => true,
                _ => false,
            },
            hyperlink: self.links.len() > 0,
        }
    }

    fn push_item(&mut self, item: ParagraphItem)
        ensures
            final(self)@ == (ParaV { runs: old(self)@.runs.push(item@), ..old(self)@ }),
    {
        let ghost before = self.runs@;
        self.runs.push(item);
        assert(crate::docx_model::items_view(self.runs@) =~= crate::docx_model::items_view(before).push(item@));
        assert(self@ =~= (ParaV { runs: old(self)@.runs.push(item@), ..old(self)@ }));
    }

    /// A text run added (see `push_text_run_v`).
    pub fn push_text_run(&mut self, text: &str, style: RunStyle)
        ensures
            final(self)@ == push_text_run_v(old(self)@, text@, style),
    {
        let run = text_run(text, style);
        if self.links.len() > 0 {
            let item = hyperlink(&self.links[self.links.len() - 1], run);
            self.push_item(item);
        } else {
            self.push_item(ParagraphItem::Run(run));
        }
    }

    /// Text added with `style` (see `push_run_v`).
    pub fn push_run(&mut self, text: &str, style: RunStyle)
        ensures
            final(self)@ == push_run_v(old(self)@, text@, style),
            final(self).bold == old(self).bold,
            final(self).italic == old(self).italic,
            final(self).strike == old(self).strike,
            final(self).quote_depth == old(self).quote_depth,
            final(self).list_depth == old(self).list_depth,
    {
        proof { lemma_push_lines_fields(self@, pieces_from(text@, '\n', 0), style); }
        if text.is_empty() {
            return;
        }
        let lines = split_char(text, '\n');
        let ghost all = string_views(lines@);
        let ghost start = self@;
        let mut i: usize = 0;
        assert(all.take(0) =~= Seq::<Seq<char>>::empty());
        while i < lines.len()
            invariant
                i <= lines.len(),
                all == string_views(lines@),
                self@ == push_lines_v(start, all.take(i as int), style),
            decreases lines.len() - i,
        {
            assert(all.take(i + 1).drop_last() =~= all.take(i as int));
            if i > 0 {
                self.push_item(ParagraphItem::Run(Run { props: None, item: RunItem::Break }));
            }
            if !lines[i].as_str().is_empty() {
                self.push_text_run(lines[i].as_str(), style);
            }
            i += 1;
        }
        assert(all.take(lines.len() as int) =~= all);
    }

    /// Text added with the current formatting (see `push_text_v`).
    pub fn push_text(&mut self, text: &str)
        ensures
            final(self)@ == push_text_v(old(self)@, text@),
            final(self).bold == old(self).bold,
            final(self).italic == old(self).italic,
            final(self).strike == old(self).strike,
            final(self).quote_depth == old(self).quote_depth,
            final(self).list_depth == old(self).list_depth,
    {
        let style = self.current_style();
        self.push_run(text, style);
    }

    /// A finished run added as it is.
    pub fn push_run_node(&mut self, run: Run)
        ensures
            final(self)@ == (ParaV { runs: old(self)@.runs.push(ParagraphItemV::Run(run@)), ..old(self)@ }),
    {
        self.push_item(ParagraphItem::Run(run));
    }
}

/// What the body of one chapter depends on besides its events: whether
/// headings follow section numbers, the chapter's level and source path,
/// the styles and the fill of code paragraphs.
pub struct BodyEnv {
    pub section_number: bool,
    pub chapter_level: nat,
    pub source_path: Option<Seq<char>>,
    pub styles: DocxStyles,
    pub background: Seq<char>,
}

/// The state of a chapter's body after some of its events: the blocks
/// written, the paragraph being built, the code block or image being read,
/// the open lists (their numbering instances), the quote depth, the table
/// being read, the chapter's bookmark until a heading takes it, the
/// registry, the code blocks read so far and how many images were placed.
#[verifier::ext_equal]
pub struct BodyV {
    pub out: Seq<BlockV>,
    pub para: ParaV,
    pub code_block: Option<(Seq<char>, Seq<char>)>,
    pub image: Option<(Seq<char>, Seq<char>)>,
    pub lists: Seq<i32>,
    pub quote_depth: usize,
    pub table: Option<TableBuildV>,
    pub bookmark: Option<(Seq<char>, Seq<char>)>,
    pub reg: RegistryV,
    pub code_seen: Seq<(Seq<char>, Seq<char>)>,
    pub images_seen: Seq<(Seq<char>, Seq<char>)>,
}

pub open spec fn with_para(st: BodyV, p: ParaV) -> BodyV {
    BodyV { para: p, ..st }
}

/// A finished paragraph goes into the cell being read, or else the body.
pub open spec fn push_block_para(st: BodyV, p: ParagraphV) -> BodyV {
    match st.table {
        Some(t) => BodyV { table: Some(TableBuildV { cell: t.cell.push(p), ..t }), ..st },
        None => BodyV { out: st.out.push(BlockV::Paragraph(p)), ..st },
    }
}

pub open spec fn opt_nat(o: Option<usize>) -> Option<nat> {
    match o {
        Some(d) => Some(d as nat),
        None => None,
    }
}

/// The paragraph being built is finished, when it holds anything: inside
/// its bookmark if it has one, with the properties of its block; its
/// style and bookmark are used up.
pub open spec fn flush_v(st: BodyV) -> BodyV {
    let p = st.para;
    if p.runs.len() == 0 {
        st
    } else {
        let items = match p.bookmark {
            Some((id, name)) => seq![ParagraphItemV::BookmarkStart(name, id)] + p.runs + seq![ParagraphItemV::BookmarkEnd(id)],
            None => p.runs,
        };
        let para = ParagraphV {
            props: Some(block_props(p.style, p.kind, p.quote_depth as nat, opt_nat(p.list_depth), p.numbering)),
            items,
        };
        push_block_para(with_para(st, ParaV { runs: seq![], bookmark: None, style: None, ..p }), para)
    }
}

/// Paragraphs added one after another.
pub open spec fn push_all_v(st: BodyV, ps: Seq<ParagraphV>) -> BodyV
    decreases ps.len(),
{
    if ps.len() == 0 { st } else { push_block_para(push_all_v(st, ps.drop_last()), ps.last()) }
}

/// The paragraphs of a code block, the last with space after it.
pub open spec fn code_paragraphs_v(lines: Seq<Seq<(Seq<char>, CodeStyleV)>>, background: Seq<char>, code_style: Seq<char>) -> Seq<ParagraphV> {
    Seq::new(lines.len(), |i: int| code_paragraph_v(lines[i], background, i == lines.len() - 1, code_style))
}

/// The lines of the `k`-th code block: as highlighted, or plain when no
/// highlighting is given for it.
pub open spec fn code_at(hl: Seq<Seq<Seq<(Seq<char>, CodeStyleV)>>>, k: nat, code: Seq<char>) -> Seq<Seq<(Seq<char>, CodeStyleV)>> {
    if k < hl.len() { hl[k as int] } else { plain_lines_v(code) }
}

/// The `k`-th image, if it was found.
pub open spec fn image_at(images: Seq<Option<ImageRefV>>, k: nat) -> Option<ImageRefV> {
    if k < images.len() { images[k as int] } else { None }
}

/// A code block ends: its lines become code paragraphs.
pub open spec fn end_code_with(env: BodyEnv, st: BodyV, lang: Seq<char>, code: Seq<char>, lines: Seq<Seq<(Seq<char>, CodeStyleV)>>) -> BodyV {
    push_all_v(
        BodyV { code_block: None, code_seen: st.code_seen.push((lang, code)), ..st },
        code_paragraphs_v(lines, env.background, env.styles.code@),
    )
}

pub open spec fn end_code_v(env: BodyEnv, st: BodyV, lang: Seq<char>, code: Seq<char>, hl: Seq<Seq<Seq<(Seq<char>, CodeStyleV)>>>) -> BodyV {
    end_code_with(env, st, lang, code, code_at(hl, st.code_seen.len(), code))
}

/// An image ends: the picture with a new drawing id when it was found,
/// else `[image: url]` as text.
pub open spec fn end_image_with(st: BodyV, url: Seq<char>, alt: Seq<char>, img: Option<ImageRefV>) -> BodyV {
    let st1 = BodyV { image: None, images_seen: st.images_seen.push((url, alt)), ..st };
    match img {
        Some(i) => {
            let (reg, id) = drawing(st.reg);
            BodyV {
                reg,
                para: ParaV { runs: st.para.runs.push(ParagraphItemV::Run(RunV { props: None, item: RunItemV::Drawing(id, i) })), ..st.para },
                ..st1
            }
        },
        None => with_para(st1, push_text_v(push_text_v(push_text_v(st.para, "[image: "@), url), "]"@)),
    }
}

pub open spec fn end_image_v(st: BodyV, url: Seq<char>, alt: Seq<char>, images: Seq<Option<ImageRefV>>) -> BodyV {
    end_image_with(st, url, alt, image_at(images, st.images_seen.len()))
}

pub open spec fn with_table(st: BodyV, f: spec_fn(TableBuildV) -> TableBuildV) -> BodyV {
    match st.table {
        Some(t) => BodyV { table: Some(f(t)), ..st },
        None => st,
    }
}

pub open spec fn rule_text() -> Seq<char> {
    "----------------------------------------"@
}

pub open spec fn plain_style() -> RunStyle {
    RunStyle { bold: false, italic: false, strike: false, code: false, hyperlink: false }
}

/// A depth one lower, not below zero.
pub open spec fn dec(d: usize) -> usize {
    if d > 0 { (d - 1) as usize } else { 0 }
}

/// The heading level of a Markdown heading of `level`: shifted below the
/// chapter's level when headings follow section numbers.
pub open spec fn docx_heading_level(env: BodyEnv, level: nat) -> int {
    if env.section_number { env.chapter_level + level - 1 } else { level as int }
}

/// One event outside code blocks and images.
#[verifier::opaque]
pub open spec fn body_event(env: BodyEnv, st: BodyV, e: MdEvent) -> BodyV {
    let p = st.para;
    match e {
        MdEvent::Start(tag) => match tag {
            MdTag::Paragraph => with_para(
                st,
                block_para(env.styles, if st.quote_depth > 0 { ParagraphKind::Quote } else { ParagraphKind::Normal }, st.quote_depth, None),
            ),
            MdTag::Heading(level) => BodyV {
                para: ParaV { bookmark: st.bookmark, ..heading_para(env.styles, docx_heading_level(env, level as nat)) },
                bookmark: None,
                ..st
            },
            MdTag::Emphasis => with_para(st, ParaV { italic: (p.italic + 1) as usize, ..p }),
            MdTag::Strong => with_para(st, ParaV { bold: (p.bold + 1) as usize, ..p }),
            MdTag::Strikethrough => with_para(st, ParaV { strike: (p.strike + 1) as usize, ..p }),
            MdTag::BlockQuote => BodyV { quote_depth: (st.quote_depth + 1) as usize, ..st },
            MdTag::List(start) => match start {
                Some(s) => {
                    let (reg, id) = ordered_numbering(st.reg, st.lists.len() as usize, s);
                    BodyV { reg, lists: st.lists.push(id), ..st }
                },
                None => BodyV { lists: st.lists.push(BULLET_NUM_ID), ..st },
            },
            MdTag::Item => {
                let depth = if st.lists.len() > 0 { st.lists.len() } else { 1 };
                let marker = if st.lists.len() > 0 { st.lists.last() } else { BULLET_NUM_ID };
                with_para(st, ParaV { numbering: Some(marker), ..block_para(env.styles, ParagraphKind::List, st.quote_depth, Some(depth as usize)) })
            },
            MdTag::CodeBlock(info) => BodyV { code_block: Some((code_lang(info), seq![])), ..st },
            MdTag::Table(a) => BodyV { table: Some(new_table_v(env.styles.table@, a@)), ..st },
            MdTag::TableHead => with_table(st, |t: TableBuildV| start_row_v(TableBuildV { in_head: true, ..t })),
            MdTag::TableRow => with_table(st, |t: TableBuildV| start_row_v(t)),
            MdTag::TableCell => with_para(with_table(st, |t: TableBuildV| start_cell_v(t)), empty_para()),
            MdTag::Link(dest) => {
                let (reg, t) = link_target_of(st.reg, env.source_path, dest@);
                BodyV { reg, para: ParaV { links: p.links.push(t), ..p }, ..st }
            },
            MdTag::Image(dest) => BodyV { image: Some((dest@, seq![])), ..st },
            MdTag::Other => st,
        },
        MdEvent::End(tag) => match tag {
            MdTagEnd::Paragraph => flush_v(st),
            MdTagEnd::Heading(_) => flush_v(st),
            MdTagEnd::Item => flush_v(st),
            MdTagEnd::Emphasis => with_para(st, ParaV { italic: dec(p.italic), ..p }),
            MdTagEnd::Strong => with_para(st, ParaV { bold: dec(p.bold), ..p }),
            MdTagEnd::Strikethrough => with_para(st, ParaV { strike: dec(p.strike), ..p }),
            MdTagEnd::BlockQuote => BodyV { quote_depth: dec(st.quote_depth), ..st },
            MdTagEnd::List => BodyV { lists: if st.lists.len() > 0 { st.lists.drop_last() } else { st.lists }, ..st },
            MdTagEnd::Table => match st.table {
                Some(t) => BodyV { out: st.out.push(BlockV::Table(table_of(t))), table: None, ..st },
                None => st,
            },
            MdTagEnd::TableHead => with_table(st, |t: TableBuildV| TableBuildV { in_head: false, ..end_row_v(t) }),
            MdTagEnd::TableRow => with_table(flush_v(st), |t: TableBuildV| end_row_v(t)),
            MdTagEnd::TableCell => with_table(flush_v(st), |t: TableBuildV| end_cell_v(t)),
            MdTagEnd::Link => with_para(st, ParaV { links: if p.links.len() > 0 { p.links.drop_last() } else { p.links }, ..p }),
            MdTagEnd::CodeBlock => st,
            MdTagEnd::Image => st,
            MdTagEnd::Other => st,
        },
        MdEvent::Code(t) => with_para(st, push_run_v(p, t@, RunStyle { code: true, ..current_style(p) })),
        MdEvent::Text(t) => with_para(st, push_text_v(p, t@)),
        MdEvent::SoftBreak => with_para(st, push_text_v(p, "\n"@)),
        MdEvent::HardBreak => with_para(st, push_text_v(p, "\n"@)),
        MdEvent::Rule => {
            let f = flush_v(st);
            BodyV {
                out: f.out.push(BlockV::Paragraph(ParagraphV { props: None, items: seq![ParagraphItemV::Run(text_run_v(rule_text(), plain_style()))] })),
                ..f
            }
        },
        MdEvent::TaskListMarker(checked) => with_para(st, ParaV { numbering: Some(if checked { TASK_DONE_NUM_ID } else { TASK_TODO_NUM_ID }), ..p }),
        MdEvent::Html(h) => with_para(st, push_text_v(p, trim(h@))),
        MdEvent::InlineHtml(h) => with_para(st, push_text_v(p, trim(h@))),
        MdEvent::FootnoteReference(n) => with_para(st, push_text_v(push_text_v(push_text_v(p, "["@), n@), "]"@)),
        MdEvent::Other => st,
    }
}

/// One event: inside a code block its text is collected, inside an image
/// its alternative text, otherwise see `body_event`.
#[verifier::opaque]
pub open spec fn body_step(
    env: BodyEnv,
    st: BodyV,
    e: MdEvent,
    hl: Seq<Seq<Seq<(Seq<char>, CodeStyleV)>>>,
    images: Seq<Option<ImageRefV>>,
) -> BodyV {
    match st.code_block {
        Some((lang, code)) => match e {
            MdEvent::End(MdTagEnd::CodeBlock) => end_code_v(env, st, lang, code, hl),
            MdEvent::Text(t) => BodyV { code_block: Some((lang, code + t@)), ..st },
            MdEvent::SoftBreak => BodyV { code_block: Some((lang, code.push('\n'))), ..st },
            MdEvent::HardBreak => BodyV { code_block: Some((lang, code.push('\n'))), ..st },
            _ => st,
        },
        None => match st.image {
            Some((url, alt)) => match e {
                MdEvent::End(MdTagEnd::Image) => end_image_v(st, url, alt, images),
                MdEvent::Text(t) => BodyV { image: Some((url, alt + t@)), ..st },
                MdEvent::Code(t) => BodyV { image: Some((url, alt + t@)), ..st },
                MdEvent::SoftBreak => BodyV { image: Some((url, alt.push(' '))), ..st },
                MdEvent::HardBreak => BodyV { image: Some((url, alt.push(' '))), ..st },
                _ => st,
            },
            None => body_event(env, st, e),
        },
    }
}

/// The state after `events`.
pub open spec fn body_run(
    env: BodyEnv,
    events: Seq<MdEvent>,
    hl: Seq<Seq<Seq<(Seq<char>, CodeStyleV)>>>,
    images: Seq<Option<ImageRefV>>,
    st: BodyV,
) -> BodyV
    decreases events.len(),
{
    if events.len() == 0 {
        st
    } else {
        body_step(env, body_run(env, events.drop_last(), hl, images, st), events.last(), hl, images)
    }
}

/// The state before a chapter's first event: the chapter's bookmark is
/// taken from the registry.
pub open spec fn initial_body(env: BodyEnv, reg: RegistryV) -> BodyV {
    let (reg1, bookmark) = chapter_mark(reg, env.source_path);
    BodyV {
        out: seq![],
        para: empty_para(),
        code_block: None,
        image: None,
        lists: seq![],
        quote_depth: 0,
        table: None,
        bookmark,
        reg: reg1,
        code_seen: seq![],
        images_seen: seq![],
    }
}

/// The state after a chapter's events, its last paragraph finished.
pub open spec fn chapter_final(
    env: BodyEnv,
    events: Seq<MdEvent>,
    hl: Seq<Seq<Seq<(Seq<char>, CodeStyleV)>>>,
    images: Seq<Option<ImageRefV>>,
    reg: RegistryV,
) -> BodyV {
    flush_v(body_run(env, events, hl, images, initial_body(env, reg)))
}

/// How many block quotes and lists the events open.
pub open spec fn nest_count(events: Seq<MdEvent>) -> nat
    decreases events.len(),
{
    if events.len() == 0 {
        0
    } else {
        nest_count(events.drop_last()) + match events.last() {
            MdEvent::Start(MdTag::BlockQuote) => 1nat,
            MdEvent::Start(MdTag::List(_)) => 1nat,
            _ => 0nat,
        }
    }
}

/// The block quotes and lists of `events` are few enough that no indent
/// the body computes can overflow.
pub open spec fn events_fit(events: Seq<MdEvent>) -> bool {
    (nest_count(events) + 1) * 420 <= usize::MAX
}

/// How much an event adds to `nest_count`.
pub open spec fn nest_delta(e: MdEvent) -> nat {
    match e {
        MdEvent::Start(MdTag::BlockQuote) => 1nat,
        MdEvent::Start(MdTag::List(_)) => 1nat,
        _ => 0nat,
    }
}

pub proof fn lemma_nest_count(events: Seq<MdEvent>, i: int)
    requires
        0 <= i <= events.len(),
    ensures
        nest_count(events.take(i)) <= nest_count(events),
        nest_count(events.take(i)) <= i,
        i < events.len() ==> nest_count(events.take(i + 1)) == nest_count(events.take(i)) + nest_delta(events[i]),
    decreases events.len() - i,
{
    if i < events.len() {
        assert(events.take(i + 1).drop_last() =~= events.take(i));
        lemma_nest_count(events, i + 1);
    } else {
        assert(events.take(i) =~= events);
    }
    lemma_nest_le_len(events.take(i));
}

pub proof fn lemma_nest_le_len(events: Seq<MdEvent>)
    ensures
        nest_count(events) <= events.len(),
    decreases events.len(),
{
    if events.len() > 0 {
        lemma_nest_le_len(events.drop_last());
    }
}

pub open spec fn image_refs_view(v: Seq<Option<ImageRef>>) -> Seq<Option<ImageRefV>> {
    Seq::new(
        v.len(),
        |i: int| match v[i] {
            Some(r) => Some(r@),
            None => None,
        },
    )
}

pub open spec fn highlights_view(v: Seq<Vec<Vec<CodeRun>>>) -> Seq<Seq<Seq<(Seq<char>, CodeStyleV)>>> {
    Seq::new(v.len(), |i: int| code_lines_view(v[i]@))
}

/// The environment of a chapter.
pub open spec fn env_of(section_number: bool, chapter: ChapterInfo, styles: DocxStyles, background: Seq<char>) -> BodyEnv {
    BodyEnv {
        section_number,
        chapter_level: match chapter.number {
            Some(n) => if n@.len() > 0 { n@.len() } else { 1 },
            None => 1,
        },
        source_path: crate::docx_model::opt_seq(chapter.source_path),
        styles,
        background,
    }
}

/// The level of a chapter: the length of its number, at least 1.
pub fn chapter_level(chapter: &ChapterInfo) -> (r: usize)
    ensures
        r == match chapter.number {
            Some(n) => if n@.len() > 0 { n@.len() } else { 1 },
            None => 1,
        },
{
    match &chapter.number {
        None => 1,
        Some(n) => if n.len() > 0 { n.len() } else { 1 },
    }
}

/// The body of a chapter being written.
pub struct BodyBuilder {
    pub out: Vec<Block>,
    pub para: ParagraphBuilder,
    pub code_block: Option<(String, String)>,
    pub image: Option<(String, String)>,
    pub lists: Vec<i32>,
    pub quote_depth: usize,
    pub table: Option<TableBuilder>,
    pub bookmark: Option<BookmarkRef>,
    pub code_seen: Ghost<Seq<(Seq<char>, Seq<char>)>>,
    pub images_seen: Vec<(String, String)>,
    pub code_count: usize,
}

impl BodyBuilder {
    pub open spec fn bv(&self, reg: RegistryV) -> BodyV {
        BodyV {
            out: blocks_view(self.out@),
            para: self.para@,
            code_block: match self.code_block {
                Some((l, c)) => Some((l@, c@)),
                None => None,
            },
            image: match self.image {
                Some((u, a)) => Some((u@, a@)),
                None => None,
            },
            lists: self.lists@,
            quote_depth: self.quote_depth,
            table: match self.table {
                Some(t) => Some(t@),
                None => None,
            },
            bookmark: bookmark_view(self.bookmark),
            reg,
            code_seen: self.code_seen@,
            images_seen: crate::docx_registry::pairs_view(self.images_seen@),
        }
    }

    /// The depths and counts are bounded by the events read so far.
    pub open spec fn bounded(&self, done: int, nest: nat) -> bool {
        &&& self.para.bold <= done
        &&& self.para.italic <= done
        &&& self.para.strike <= done
        &&& self.images_seen@.len() <= done
        &&& self.code_count <= done
        &&& self.code_count == self.code_seen@.len()
        &&& self.quote_depth + self.lists@.len() <= nest
        &&& self.para.quote_depth + (match self.para.list_depth { Some(d) => d as int, None => 0 }) <= nest + 1
    }
}


/// An open list: the numbering instance of its items.
#[derive(Clone, Copy, Debug)]
pub struct ListState {
    pub numbering_id: i32,
}

impl ListState {
    /// A list at nesting `level`: an ordered list numbered from `start`
    /// gets a new numbering instance, a bullet list the bullet instance.
    pub fn new(start: Option<u64>, level: usize, reg: &mut DocxRegistry) -> (l: ListState)
        ensures
            (final(reg)@, l.numbering_id) == match start {
                Some(s) => ordered_numbering(old(reg)@, level, s),
                None => (old(reg)@, BULLET_NUM_ID),
            },
    {
        let numbering_id = match start {
            Some(s) => reg.ordered_numbering_id(level, s),
            None => BULLET_NUM_ID,
        };
        ListState { numbering_id }
    }

    /// The numbering instance of the list's items.
    pub fn numbering_id(&self) -> (r: i32)
        ensures
            r == self.numbering_id,
    {
        self.numbering_id
    }
}

/// What the body of one chapter depends on (see `BodyEnv`).
pub struct ChapterEnv<'a> {
    pub section_number: bool,
    pub chapter_level: usize,
    pub source_path: Option<String>,
    pub styles: &'a DocxStyles,
    pub background: String,
}

impl<'a> ChapterEnv<'a> {
    pub open spec fn env(&self) -> BodyEnv {
        BodyEnv {
            section_number: self.section_number,
            chapter_level: self.chapter_level as nat,
            source_path: crate::docx_model::opt_seq(self.source_path),
            styles: *self.styles,
            background: self.background@,
        }
    }

    pub open spec fn ok(&self) -> bool {
        self.styles.wf() && self.chapter_level + 6 <= usize::MAX
    }

    fn source(&self) -> (r: Option<&str>)
        ensures
            match r {
                Some(p) => self.env().source_path == Some(p@),
                None => self.env().source_path is None,
            },
    {
        match &self.source_path {
            Some(p) => Some(p.as_str()),
            None => None,
        }
    }
}

/// The environment of a chapter (see `env_of`).
pub fn chapter_env<'a>(section_number: bool, chapter: &ChapterInfo, styles: &'a DocxStyles, background: &str) -> (e: ChapterEnv<'a>)
    ensures
        e.env() == env_of(section_number, *chapter, *styles, background@),
        e.styles == styles,
{
    let source_path = match &chapter.source_path {
        Some(p) => Some(p.clone()),
        None => None,
    };
    ChapterEnv {
        section_number,
        chapter_level: chapter_level(chapter),
        source_path,
        styles,
        background: to_string(background),
    }
}

fn copy_aligns(a: &Vec<crate::markdown::MdAlign>) -> (r: Vec<crate::markdown::MdAlign>)
    ensures
        r@ == a@,
{
    let mut r: Vec<crate::markdown::MdAlign> = Vec::new();
    let mut i: usize = 0;
    while i < a.len()
        invariant
            i <= a.len(),
            r@ == a@.take(i as int),
        decreases a.len() - i,
    {
        r.push(a[i]);
        assert(r@ =~= a@.take(i + 1));
        i += 1;
    }
    assert(a@.take(a.len() as int) =~= a@);
    r
}

impl BodyBuilder {
    /// The body before a chapter's first event (see `initial_body`).
    pub fn new(env: &ChapterEnv, reg: &mut DocxRegistry) -> (b: BodyBuilder)
        ensures
            b.bv(final(reg)@) == initial_body(env.env(), old(reg)@),
            b.bounded(0, 0),
    {
        let bookmark = reg.chapter_bookmark(env.source());
        let b = BodyBuilder {
            out: Vec::new(),
            para: ParagraphBuilder::empty(),
            code_block: None,
            image: None,
            lists: Vec::new(),
            quote_depth: 0,
            table: None,
            bookmark,
            code_seen: Ghost(Seq::empty()),
            images_seen: Vec::new(),
            code_count: 0,
        };
        assert(b.bv(reg@) =~= initial_body(env.env(), old(reg)@));
        b
    }

    /// A finished paragraph goes into the cell being read or the body (see
    /// `push_block_para`).
    fn push_paragraph(&mut self, reg: &DocxRegistry, p: Paragraph)
        ensures
            final(self).bv(reg@) == push_block_para(old(self).bv(reg@), p@),
            final(self).para == old(self).para,
            final(self).quote_depth == old(self).quote_depth,
            final(self).lists == old(self).lists,
            final(self).code_seen == old(self).code_seen,
            final(self).images_seen == old(self).images_seen,
            final(self).code_count == old(self).code_count,
            final(self).code_block == old(self).code_block,
            final(self).image == old(self).image,
    {
        match self.table.take() {
            Some(mut t) => {
                t.push_paragraph(p);
                self.table = Some(t);
            },
            None => {
                let ghost before = self.out@;
                self.out.push(Block::Paragraph(p));
                assert(blocks_view(self.out@) =~= blocks_view(before).push(BlockV::Paragraph(p@)));
            },
        }
        assert(self.bv(reg@) =~= push_block_para(old(self).bv(reg@), p@));
    }

    /// The paragraph being built is finished (see `flush_v`).
    pub fn flush(&mut self, reg: &DocxRegistry)
        requires
            (old(self).para.quote_depth + (match old(self).para.list_depth { Some(d) => d as int, None => 0 })) * 420 <= usize::MAX,
        ensures
            final(self).bv(reg@) == flush_v(old(self).bv(reg@)),
            final(self).para.bold == old(self).para.bold,
            final(self).para.italic == old(self).para.italic,
            final(self).para.strike == old(self).para.strike,
            final(self).para.quote_depth == old(self).para.quote_depth,
            final(self).para.list_depth == old(self).para.list_depth,
            final(self).quote_depth == old(self).quote_depth,
            final(self).lists == old(self).lists,
            final(self).code_seen == old(self).code_seen,
            final(self).images_seen == old(self).images_seen,
            final(self).code_count == old(self).code_count,
    {
        if self.para.runs.len() == 0 {
            return;
        }
        let ghost st = self.bv(reg@);
        let mut runs: Vec<ParagraphItem> = Vec::new();
        std::mem::swap(&mut runs, &mut self.para.runs);
        let ghost rv = crate::docx_model::items_view(runs@);
        let bookmark = self.para.bookmark.take();
        let style = self.para.style.take();
        let items = match bookmark {
            Some(b) => {
                let mut v: Vec<ParagraphItem> = Vec::new();
                let id2 = b.id.clone();
                v.push(ParagraphItem::BookmarkStart(b.name, b.id));
                v.append(&mut runs);
                v.push(ParagraphItem::BookmarkEnd(id2));
                assert(crate::docx_model::items_view(v@) =~= seq![ParagraphItemV::BookmarkStart(b.name@, b.id@)] + rv + seq![ParagraphItemV::BookmarkEnd(b.id@)]);
                v
            },
            None => runs,
        };
        let props = block_properties(
            match &style {
                Some(s) => Some(s.as_str()),
                None => None,
            },
            self.para.kind,
            self.para.quote_depth,
            self.para.list_depth,
            self.para.numbering,
        );
        let p = Paragraph { props: Some(props), items };
        assert(crate::docx_model::items_view(self.para.runs@) =~= seq![]);
        assert(self.bv(reg@) =~= with_para(st, ParaV { runs: seq![], bookmark: None, style: None, ..st.para }));
        self.push_paragraph(reg, p);
    }

    /// Paragraphs added one after another (see `push_all_v`).
    fn push_code_paragraphs(&mut self, env: &ChapterEnv, reg: &DocxRegistry, lines: &Vec<Vec<CodeRun>>)
        ensures
            final(self).bv(reg@) == push_all_v(old(self).bv(reg@), code_paragraphs_v(code_lines_view(lines@), env.background@, env.styles.code@)),
            final(self).para == old(self).para,
            final(self).quote_depth == old(self).quote_depth,
            final(self).lists == old(self).lists,
            final(self).code_seen == old(self).code_seen,
            final(self).images_seen == old(self).images_seen,
            final(self).code_count == old(self).code_count,
            final(self).code_block == old(self).code_block,
            final(self).image == old(self).image,
    {
        let ghost st = self.bv(reg@);
        let ghost ps = code_paragraphs_v(code_lines_view(lines@), env.background@, env.styles.code@);
        let n = lines.len();
        let mut i: usize = 0;
        assert(ps.take(0) =~= Seq::<ParagraphV>::empty());
        while i < n
            invariant
                n == lines.len(),
                i <= n,
                ps == code_paragraphs_v(code_lines_view(lines@), env.background@, env.styles.code@),
                self.bv(reg@) == push_all_v(st, ps.take(i as int)),
                self.code_block == old(self).code_block,
                self.image == old(self).image,
                self.para == old(self).para,
                self.lists == old(self).lists,
                self.code_seen == old(self).code_seen,
                self.images_seen == old(self).images_seen,
                self.code_count == old(self).code_count,
                self.quote_depth == old(self).quote_depth,
            decreases n - i,
        {
            let p = code_paragraph(&lines[i], env.background.as_str(), i == n - 1, env.styles);
            assert(p@ == ps[i as int]);
            assert(ps.take(i + 1).drop_last() =~= ps.take(i as int));
            self.push_paragraph(reg, p);
            i += 1;
        }
        assert(ps.take(n as int) =~= ps);
    }
}


impl BodyBuilder {
    fn update_table(&mut self, reg: &DocxRegistry, start_row: bool, end_row: bool, head: Option<bool>)
        ensures
            final(self).bv(reg@) == with_table(old(self).bv(reg@), |t: TableBuildV| {
                let t1 = match head { Some(h) => if h { TableBuildV { in_head: true, ..t } } else { t }, None => t };
                let t2 = if end_row { end_row_v(t1) } else { t1 };
                let t3 = if start_row { start_row_v(t2) } else { t2 };
                match head { Some(h) => if !h { TableBuildV { in_head: false, ..t3 } } else { t3 }, None => t3 }
            }),
            final(self).para == old(self).para,
            final(self).quote_depth == old(self).quote_depth,
            final(self).lists == old(self).lists,
            final(self).code_seen == old(self).code_seen,
            final(self).images_seen == old(self).images_seen,
            final(self).code_count == old(self).code_count,
    {
        match self.table.take() {
            Some(mut t) => {
                match head {
                    Some(h) => if h { t.set_head(true); },
                    None => {},
                }
                if end_row {
                    t.end_row();
                }
                if start_row {
                    t.start_row();
                }
                match head {
                    Some(h) => if !h { t.set_head(false); },
                    None => {},
                }
                self.table = Some(t);
            },
            None => {},
        }
        assert(self.bv(reg@) =~= with_table(old(self).bv(reg@), |t: TableBuildV| {
                let t1 = match head { Some(h) => if h { TableBuildV { in_head: true, ..t } } else { t }, None => t };
                let t2 = if end_row { end_row_v(t1) } else { t1 };
                let t3 = if start_row { start_row_v(t2) } else { t2 };
                match head { Some(h) => if !h { TableBuildV { in_head: false, ..t3 } } else { t3 }, None => t3 }
            }));
    }

    fn table_cell(&mut self, reg: &DocxRegistry, start: bool)
        ensures
            final(self).bv(reg@) == with_table(old(self).bv(reg@), |t: TableBuildV| if start { start_cell_v(t) } else { end_cell_v(t) }),
            final(self).para == old(self).para,
            final(self).quote_depth == old(self).quote_depth,
            final(self).lists == old(self).lists,
            final(self).code_seen == old(self).code_seen,
            final(self).images_seen == old(self).images_seen,
            final(self).code_count == old(self).code_count,
    {
        match self.table.take() {
            Some(mut t) => {
                if start {
                    t.start_cell();
                } else {
                    t.end_cell();
                }
                self.table = Some(t);
            },
            None => {},
        }
        assert(self.bv(reg@) =~= with_table(old(self).bv(reg@), |t: TableBuildV| if start { start_cell_v(t) } else { end_cell_v(t) }));
    }

    /// One event outside code blocks and images (see `body_event`).
    #[verifier::rlimit(50)]
    pub(crate) fn event(&mut self, env: &ChapterEnv, reg: &mut DocxRegistry, e: &MdEvent, done: Ghost<int>, nest: Ghost<nat>)
        requires
            env.ok(),
            event_level_ok(*e),
            old(self).code_block is None,
            old(self).image is None,
            old(self).bounded(done@, nest@),
            done@ + 1 <= usize::MAX,
            (nest@ + nest_delta(*e) + 1) * 420 <= usize::MAX,
        ensures
            final(self).bv(final(reg)@) == body_event(env.env(), old(self).bv(old(reg)@), *e),
            final(self).bounded(done@ + 1, nest@ + nest_delta(*e)),
    {
        let ghost st = self.bv(reg@);
        let ghost envv = env.env();
        proof { reveal(body_event); }
        match e {
            MdEvent::Start(tag) => match tag {
                MdTag::Paragraph => {
                    let kind = if self.quote_depth > 0 { ParagraphKind::Quote } else { ParagraphKind::Normal };
                    self.para = ParagraphBuilder::for_block(env.styles, kind, self.quote_depth, None);
                },
                MdTag::Heading(level) => {
                    let l = if env.section_number { env.chapter_level + *level - 1 } else { *level };
                    let mut p = ParagraphBuilder::with_heading(l, env.styles);
                    p.bookmark = self.bookmark.take();
                    self.para = p;
                },
                MdTag::Emphasis => self.para.italic = self.para.italic + 1,
                MdTag::Strong => self.para.bold = self.para.bold + 1,
                MdTag::Strikethrough => self.para.strike = self.para.strike + 1,
                MdTag::BlockQuote => self.quote_depth = self.quote_depth + 1,
                MdTag::List(start) => {
                    let list = ListState::new(*start, self.lists.len(), reg);
                    self.lists.push(list.numbering_id());
                },
                MdTag::Item => {
                    let depth = if self.lists.len() > 0 { self.lists.len() } else { 1 };
                    let marker = if self.lists.len() > 0 { self.lists[self.lists.len() - 1] } else { BULLET_NUM_ID };
                    let mut p = ParagraphBuilder::for_block(env.styles, ParagraphKind::List, self.quote_depth, Some(depth));
                    p.numbering = Some(marker);
                    self.para = p;
                },
                MdTag::CodeBlock(info) => {
                    let lang = crate::typst_render::code_lang_of(info);
                    self.code_block = Some((lang, String::new()));
                },
                MdTag::Table(a) => {
                    self.table = Some(TableBuilder::new(env.styles.table.as_str(), copy_aligns(a)));
                },
                MdTag::TableHead => self.update_table(reg, true, false, Some(true)),
                MdTag::TableRow => self.update_table(reg, true, false, None),
                MdTag::TableCell => {
                    self.table_cell(reg, true);
                    self.para = ParagraphBuilder::empty();
                },
                MdTag::Link(dest) => {
                    let t = reg.link_target(env.source(), dest.as_str());
                    let ghost before = self.para.links@;
                    self.para.links.push(t);
                    assert(targets_view(self.para.links@) =~= targets_view(before).push(t@));
                },
                MdTag::Image(dest) => {
                    self.image = Some((dest.clone(), String::new()));
                },
                MdTag::Other => {},
            },
            MdEvent::End(tag) => match tag {
                MdTagEnd::Paragraph => self.flush(reg),
                MdTagEnd::Heading(_) => self.flush(reg),
                MdTagEnd::Item => self.flush(reg),
                MdTagEnd::Emphasis => if self.para.italic > 0 { self.para.italic = self.para.italic - 1; },
                MdTagEnd::Strong => if self.para.bold > 0 { self.para.bold = self.para.bold - 1; },
                MdTagEnd::Strikethrough => if self.para.strike > 0 { self.para.strike = self.para.strike - 1; },
                MdTagEnd::BlockQuote => if self.quote_depth > 0 { self.quote_depth = self.quote_depth - 1; },
                MdTagEnd::List => {
                    if self.lists.len() > 0 {
                        self.lists.pop();
                    }
                },
                MdTagEnd::Table => {
                    match self.table.take() {
                        Some(t) => {
                            let table = t.into_table();
                            let ghost before = self.out@;
                            self.out.push(Block::Table(table));
                            assert(blocks_view(self.out@) =~= blocks_view(before).push(BlockV::Table(table@)));
                        },
                        None => {},
                    }
                },
                MdTagEnd::TableHead => self.update_table(reg, false, true, Some(false)),
                MdTagEnd::TableRow => {
                    self.flush(reg);
                    self.update_table(reg, false, true, None);
                },
                MdTagEnd::TableCell => {
                    self.flush(reg);
                    self.table_cell(reg, false);
                },
                MdTagEnd::Link => {
                    if self.para.links.len() > 0 {
                        let ghost before = self.para.links@;
                        self.para.links.pop();
                        assert(targets_view(self.para.links@) =~= targets_view(before).drop_last());
                    }
                },
                MdTagEnd::CodeBlock => {},
                MdTagEnd::Image => {},
                MdTagEnd::Other => {},
            },
            MdEvent::Code(t) => {
                let mut style = self.para.current_style();
                style.code = true;
                self.para.push_run(t.as_str(), style);
            },
            MdEvent::Text(t) => self.para.push_text(t.as_str()),
            MdEvent::SoftBreak => {
                self.para.push_text("\n");
            },
            MdEvent::HardBreak => {
                self.para.push_text("\n");
            },
            MdEvent::Rule => {
                self.flush(reg);
                let p = paragraph_from_text("----------------------------------------", RunStyle::plain());
                let ghost before = self.out@;
                self.out.push(Block::Paragraph(p));
                assert(blocks_view(self.out@) =~= blocks_view(before).push(BlockV::Paragraph(p@)));
            },
            MdEvent::TaskListMarker(checked) => {
                self.para.numbering = Some(if *checked { TASK_DONE_NUM_ID } else { TASK_TODO_NUM_ID });
            },
            MdEvent::Html(h) => {
                let t = string_of(&trim_chars(&chars_of(h.as_str())));
                self.para.push_text(t.as_str());
            },
            MdEvent::InlineHtml(h) => {
                let t = string_of(&trim_chars(&chars_of(h.as_str())));
                self.para.push_text(t.as_str());
            },
            MdEvent::FootnoteReference(n) => {
                self.para.push_text("[");
                self.para.push_text(n.as_str());
                self.para.push_text("]");
            },
            MdEvent::Other => {},
        }
        assert(self.bv(reg@) =~= body_event(envv, st, *e));
    }
}


pub open spec fn pair_of(o: Option<(String, String)>) -> (Seq<char>, Seq<char>) {
    match o {
        Some((a, b)) => (a@, b@),
        None => (seq![], seq![]),
    }
}

pub open spec fn image_view(o: Option<ImageRef>) -> Option<ImageRefV> {
    match o {
        Some(r) => Some(r@),
        None => None,
    }
}

fn copy_image(i: &ImageRef) -> (r: ImageRef)
    ensures
        r@ == i@,
{
    ImageRef { relationship_id: i.relationship_id.clone(), width: i.width, height: i.height, alt: i.alt.clone() }
}

impl BodyBuilder {
    /// A code block ends with `lines` as its runs (see `end_code_with`).
    fn end_code(&mut self, env: &ChapterEnv, reg: &DocxRegistry, lines: &Vec<Vec<CodeRun>>, done: Ghost<int>, nest: Ghost<nat>)
        requires
            old(self).code_block is Some,
            old(self).bounded(done@, nest@),
            done@ + 1 <= usize::MAX,
        ensures
            final(self).bv(reg@) == end_code_with(
                env.env(),
                old(self).bv(reg@),
                pair_of(old(self).code_block).0,
                pair_of(old(self).code_block).1,
                code_lines_view(lines@),
            ),
            final(self).bounded(done@ + 1, nest@),
    {
        let ghost st = self.bv(reg@);
        let (lang, code) = match self.code_block.take() {
            Some(c) => c,
            None => (String::new(), String::new()),
        };
        self.code_seen = Ghost(self.code_seen@.push((lang@, code@)));
        self.code_count = self.code_count + 1;
        assert(self.bv(reg@) =~= (BodyV { code_block: None, code_seen: st.code_seen.push((lang@, code@)), ..st }));
        self.push_code_paragraphs(env, reg, lines);
    }

    /// An image ends with `img` as its picture (see `end_image_with`).
    fn end_image(&mut self, reg: &mut DocxRegistry, img: &Option<ImageRef>, done: Ghost<int>, nest: Ghost<nat>)
        requires
            old(self).image is Some,
            old(self).bounded(done@, nest@),
            done@ + 1 <= usize::MAX,
        ensures
            final(self).bv(final(reg)@) == end_image_with(
                old(self).bv(old(reg)@),
                pair_of(old(self).image).0,
                pair_of(old(self).image).1,
                image_view(*img),
            ),
            final(self).bounded(done@ + 1, nest@),
            final(self).code_block == old(self).code_block,
    {
        let ghost st = self.bv(reg@);
        let (url, alt) = match self.image.take() {
            Some(c) => c,
            None => (String::new(), String::new()),
        };
        let ghost before = self.images_seen@;
        self.images_seen.push((url.clone(), alt));
        assert(crate::docx_registry::pairs_view(self.images_seen@) =~= crate::docx_registry::pairs_view(before).push((url@, pair_of(old(self).image).1)));
        match img {
            Some(i) => {
                let id = reg.next_drawing();
                self.para.push_run_node(Run { props: None, item: RunItem::Drawing(id, copy_image(i)) });
            },
            None => {
                self.para.push_text("[image: ");
                self.para.push_text(url.as_str());
                self.para.push_text("]");
            },
        }
        assert(self.bv(reg@) =~= end_image_with(st, url@, pair_of(old(self).image).1, image_view(*img)));
    }

    /// One event other than the end of a code block inside it (see
    /// `body_step`).
    fn step_other(
        &mut self,
        env: &ChapterEnv,
        reg: &mut DocxRegistry,
        e: &MdEvent,
        images: &Vec<Option<ImageRef>>,
        hl: Ghost<Seq<Seq<Seq<(Seq<char>, CodeStyleV)>>>>,
        done: Ghost<int>,
        nest: Ghost<nat>,
    )
        requires
            env.ok(),
            event_level_ok(*e),
            !(old(self).code_block is Some && (*e matches MdEvent::End(MdTagEnd::CodeBlock))),
            old(self).bounded(done@, nest@),
            done@ + 1 <= usize::MAX,
            (nest@ + nest_delta(*e) + 1) * 420 <= usize::MAX,
        ensures
            final(self).bv(final(reg)@) == body_step(env.env(), old(self).bv(old(reg)@), *e, hl@, image_refs_view(images@)),
            final(self).bounded(done@ + 1, nest@ + nest_delta(*e)),
    {
        let ghost st = self.bv(reg@);
        proof { reveal(body_step); }
        if self.code_block.is_some() {
            let (lang, mut code) = match self.code_block.take() {
                Some(c) => c,
                None => (String::new(), String::new()),
            };
            match e {
                MdEvent::Text(t) => push_str(&mut code, t.as_str()),
                MdEvent::SoftBreak => push_char(&mut code, '\n'),
                MdEvent::HardBreak => push_char(&mut code, '\n'),
                _ => {},
            }
            self.code_block = Some((lang, code));
            assert(self.bv(reg@) =~= body_step(env.env(), st, *e, hl@, image_refs_view(images@)));
            return;
        }
        if self.image.is_some() {
            match e {
                MdEvent::End(MdTagEnd::Image) => {
                    let k = self.images_seen.len();
                    if k < images.len() {
                        self.end_image(reg, &images[k], done, nest);
                    } else {
                        self.end_image(reg, &None, done, nest);
                    }
                    return;
                },
                _ => {},
            }
            let (url, mut alt) = match self.image.take() {
                Some(c) => c,
                None => (String::new(), String::new()),
            };
            match e {
                MdEvent::Text(t) => push_str(&mut alt, t.as_str()),
                MdEvent::Code(t) => push_str(&mut alt, t.as_str()),
                MdEvent::SoftBreak => push_char(&mut alt, ' '),
                MdEvent::HardBreak => push_char(&mut alt, ' '),
                _ => {},
            }
            self.image = Some((url, alt));
            assert(self.bv(reg@) =~= body_step(env.env(), st, *e, hl@, image_refs_view(images@)));
            return;
        }
        self.event(env, reg, e, done, nest);
    }
}

/// Appending paragraphs changes neither the code blocks, the image state
/// nor the logs.
pub proof fn lemma_push_all_keeps(st: BodyV, ps: Seq<ParagraphV>)
    ensures
        push_all_v(st, ps).code_seen == st.code_seen,
        push_all_v(st, ps).code_block == st.code_block,
        push_all_v(st, ps).image == st.image,
        push_all_v(st, ps).images_seen == st.images_seen,
    decreases ps.len(),
{
    if ps.len() > 0 {
        lemma_push_all_keeps(st, ps.drop_last());
    }
}

/// A step adds at most the one code block it ends to the log, and reads
/// the highlighting only of that block.
pub proof fn lemma_step_code(
    env: BodyEnv,
    st: BodyV,
    e: MdEvent,
    hl: Seq<Seq<Seq<(Seq<char>, CodeStyleV)>>>,
    x: Seq<Seq<(Seq<char>, CodeStyleV)>>,
    images: Seq<Option<ImageRefV>>,
)
    ensures
        body_step(env, st, e, hl, images).code_seen.len() >= st.code_seen.len(),
        st.code_seen.len() < hl.len() ==> body_step(env, st, e, hl.push(x), images) == body_step(env, st, e, hl, images),
        body_step(env, st, e, hl, images).code_seen.len() == st.code_seen.len() ==> body_step(env, st, e, hl.push(x), images) == body_step(env, st, e, hl, images),
        !(st.code_block is Some && (e matches MdEvent::End(MdTagEnd::CodeBlock))) ==> body_step(env, st, e, hl, images).code_seen == st.code_seen,
{
    reveal(body_step);
    reveal(body_event);
    match st.code_block {
        Some((lang, code)) => match e {
            MdEvent::End(MdTagEnd::CodeBlock) => {
                let lines = code_at(hl, st.code_seen.len(), code);
                lemma_push_all_keeps(
                    BodyV { code_block: None, code_seen: st.code_seen.push((lang, code)), ..st },
                    code_paragraphs_v(lines, env.background, env.styles.code@),
                );
                if st.code_seen.len() < hl.len() {
                    assert(code_at(hl.push(x), st.code_seen.len(), code) == code_at(hl, st.code_seen.len(), code));
                }
            },
            _ => {},
        },
        None => {},
    }
}

/// The state after some events does not depend on highlighting given for
/// code blocks those events do not end.
pub proof fn lemma_run_extend(
    env: BodyEnv,
    events: Seq<MdEvent>,
    hl: Seq<Seq<Seq<(Seq<char>, CodeStyleV)>>>,
    x: Seq<Seq<(Seq<char>, CodeStyleV)>>,
    images: Seq<Option<ImageRefV>>,
    st: BodyV,
)
    requires
        body_run(env, events, hl, images, st).code_seen.len() <= hl.len(),
    ensures
        body_run(env, events, hl.push(x), images, st) == body_run(env, events, hl, images, st),
    decreases events.len(),
{
    if events.len() > 0 {
        let inner = body_run(env, events.drop_last(), hl, images, st);
        lemma_step_code(env, inner, events.last(), hl, x, images);
        lemma_run_extend(env, events.drop_last(), hl, x, images, st);
    }
}


impl BodyBuilder {
    /// One event, with the given highlighting and pictures (see `body_step`).
    fn step_with(
        &mut self,
        env: &ChapterEnv,
        reg: &mut DocxRegistry,
        e: &MdEvent,
        code: &Vec<Vec<Vec<CodeRun>>>,
        images: &Vec<Option<ImageRef>>,
        done: Ghost<int>,
        nest: Ghost<nat>,
    )
        requires
            env.ok(),
            event_level_ok(*e),
            old(self).bounded(done@, nest@),
            done@ + 1 <= usize::MAX,
            (nest@ + nest_delta(*e) + 1) * 420 <= usize::MAX,
        ensures
            final(self).bv(final(reg)@) == body_step(env.env(), old(self).bv(old(reg)@), *e, highlights_view(code@), image_refs_view(images@)),
            final(self).bounded(done@ + 1, nest@ + nest_delta(*e)),
    {
        let ghost hl = highlights_view(code@);
        let is_code_end = self.code_block.is_some() && (match e {
            MdEvent::End(MdTagEnd::CodeBlock) => true,
            _ => false,
        });
        if is_code_end {
            proof { reveal(body_step); }
            let k = self.code_count;
            if k < code.len() {
                proof { assert(code_at(hl, k as nat, pair_of(self.code_block).1) == code_lines_view(code@[k as int]@)); }
                self.end_code(env, reg, &code[k], done, nest);
            } else {
                let plain = match &self.code_block {
                    Some((_, c)) => plain_code_lines(c.as_str()),
                    None => Vec::new(),
                };
                self.end_code(env, reg, &plain, done, nest);
            }
        } else {
            self.step_other(env, reg, e, images, Ghost(hl), done, nest);
        }
    }
}

/// The body of a chapter from its Markdown events, given the highlighted
/// lines of its code blocks in order and the pictures found for its images
/// in order (code blocks past the given ones are plain, images past them
/// were not found): the blocks of `chapter_final`, with the registry after
/// them.
pub fn render_chapter_events(
    env: &ChapterEnv,
    reg: &mut DocxRegistry,
    events: &Vec<MdEvent>,
    code: &Vec<Vec<Vec<CodeRun>>>,
    images: &Vec<Option<ImageRef>>,
) -> (r: Vec<Block>)
    requires
        env.ok(),
        crate::markdown::heading_levels_ok(events@),
        events_fit(events@),
    ensures
        blocks_view(r@) == chapter_final(env.env(), events@, highlights_view(code@), image_refs_view(images@), old(reg)@).out,
        final(reg)@ == chapter_final(env.env(), events@, highlights_view(code@), image_refs_view(images@), old(reg)@).reg,
{
    let ghost reg0 = reg@;
    let ghost envv = env.env();
    let ghost hl = highlights_view(code@);
    let ghost ims = image_refs_view(images@);
    let mut b = BodyBuilder::new(env, reg);
    let ghost st0 = b.bv(reg@);
    assert(events@.take(0) =~= Seq::<MdEvent>::empty());
    let mut i: usize = 0;
    while i < events.len()
        invariant
            i <= events.len(),
            env.ok(),
            crate::markdown::heading_levels_ok(events@),
            events_fit(events@),
            hl == highlights_view(code@),
            ims == image_refs_view(images@),
            st0 == initial_body(envv, reg0),
            envv == env.env(),
            b.bv(reg@) == body_run(envv, events@.take(i as int), hl, ims, st0),
            b.bounded(i as int, nest_count(events@.take(i as int))),
        decreases events.len() - i,
    {
        let e = &events[i];
        proof {
            lemma_nest_count(events@, i as int);
            lemma_nest_count(events@, i + 1);
            assert(events@.take(i + 1).drop_last() =~= events@.take(i as int));
            assert(crate::markdown::event_level_ok(events@[i as int]));
        }
        b.step_with(env, reg, e, code, images, Ghost(i as int), Ghost(nest_count(events@.take(i as int))));
        i += 1;
    }
    assert(events@.take(events.len() as int) =~= events@);
    proof { lemma_nest_count(events@, events.len() as int); }
    b.flush(reg);
    b.out
}


/// How a chapter's body can fail.
#[derive(Clone, Debug)]
pub enum DocxError {
    /// The highlighter failed on a code block, with its message.
    Highlight(String),
    /// The chapter opens so many block quotes and lists that their indent
    /// cannot be computed.
    TooDeep,
}

/// Whether the events fit (see `events_fit`).
pub fn check_events_fit(events: &Vec<MdEvent>) -> (b: bool)
    ensures
        b == events_fit(events@),
{
    let mut count: usize = 0;
    let mut i: usize = 0;
    assert(events@.take(0) =~= Seq::<MdEvent>::empty());
    while i < events.len()
        invariant
            i <= events.len(),
            count == nest_count(events@.take(i as int)),
        decreases events.len() - i,
    {
        proof {
            lemma_nest_count(events@, i as int);
            lemma_nest_count(events@, i + 1);
        }
        match &events[i] {
            MdEvent::Start(MdTag::BlockQuote) => count = count + 1,
            MdEvent::Start(MdTag::List(_)) => count = count + 1,
            _ => {},
        }
        i += 1;
    }
    assert(events@.take(events.len() as int) =~= events@);
    let limit: usize = usize::MAX / 420;
    let fits = count < limit;
    proof {
        let c = count as int;
        let m = usize::MAX as int;
        let l = limit as int;
        assert(l == m / 420);
        if c < l {
            assert((c + 1) * 420 <= m) by (nonlinear_arith)
                requires c + 1 <= l, l == m / 420, m >= 0;
        } else {
            assert((c + 1) * 420 > m) by (nonlinear_arith)
                requires c + 1 > l, l == m / 420, m >= 0;
        }
    }
    fits
}

/// The highlighting of a chapter's code blocks, highlighting on or off
/// and the theme as in `hc`: one entry per code block read, each the lines
/// of that block (see `block_highlight_ok`).
pub open spec fn highlighting_ok(hc: (bool, Seq<char>), seen: Seq<(Seq<char>, Seq<char>)>, hl: Seq<Seq<Seq<(Seq<char>, CodeStyleV)>>>) -> bool {
    &&& hl.len() == seen.len()
    &&& forall|k: int| 0 <= k < hl.len() ==> #[trigger] block_highlight_ok(hc, seen[k], hl[k])
}

/// The highlighting of one code block (language and code): the lines
/// `code_block_lines` gives it, which cover the block's lines.
pub open spec fn block_highlight_ok(hc: (bool, Seq<char>), block: (Seq<char>, Seq<char>), lines: Seq<Seq<(Seq<char>, CodeStyleV)>>) -> bool {
    &&& covers_lines(block.1, lines)
    &&& code_block_lines(hc.0, hc.1, block.0, block.1) == Ok::<_, Seq<char>>(lines)
}

/// The state after `events` from `st`, each code block given the lines
/// `code_block_lines` gives it (with highlighting on or off and the theme
/// as in `hc`), and those lines in order; the highlighter's error on the
/// first block it fails on instead.
pub open spec fn exact_run(
    env: BodyEnv,
    events: Seq<MdEvent>,
    images: Seq<Option<ImageRefV>>,
    st: BodyV,
    hc: (bool, Seq<char>),
) -> Result<(BodyV, Seq<Seq<Seq<(Seq<char>, CodeStyleV)>>>), Seq<char>>
    decreases events.len(),
{
    if events.len() == 0 {
        Ok((st, seq![]))
    } else {
        match exact_run(env, events.drop_last(), images, st, hc) {
            Err(m) => Err(m),
            Ok((s, hl)) => match (s.code_block, events.last()) {
                (Some((lang, code)), MdEvent::End(MdTagEnd::CodeBlock)) => match code_block_lines(hc.0, hc.1, lang, code) {
                    Ok(lines) => Ok((body_step(env, s, events.last(), hl.push(lines), images), hl.push(lines))),
                    Err(m) => Err(m),
                },
                _ => Ok((body_step(env, s, events.last(), hl, images), hl)),
            },
        }
    }
}

/// Once the highlighter fails, the run fails with that error whatever
/// events follow.
proof fn lemma_exact_err(
    env: BodyEnv,
    events: Seq<MdEvent>,
    images: Seq<Option<ImageRefV>>,
    st: BodyV,
    hc: (bool, Seq<char>),
    n: int,
    j: int,
    m: Seq<char>,
)
    requires
        0 <= n <= j <= events.len(),
        exact_run(env, events.take(n), images, st, hc) == Err::<(BodyV, Seq<Seq<Seq<(Seq<char>, CodeStyleV)>>>), Seq<char>>(m),
    ensures
        exact_run(env, events.take(j), images, st, hc) == Err::<(BodyV, Seq<Seq<Seq<(Seq<char>, CodeStyleV)>>>), Seq<char>>(m),
    decreases j - n,
{
    if j > n {
        lemma_exact_err(env, events, images, st, hc, n, j - 1, m);
        assert(events.take(j).drop_last() =~= events.take(j - 1));
    }
}

/// The body `blocks` and the registry `reg1` after a chapter come from
/// the highlighting `hl`: each of its entries is the lines
/// `code_block_lines` gives that code block, and they are those of
/// `chapter_final`.
#[verifier::opaque]
pub open spec fn body_result(
    env: BodyEnv,
    events: Seq<MdEvent>,
    hl: Seq<Seq<Seq<(Seq<char>, CodeStyleV)>>>,
    images: Seq<Option<ImageRefV>>,
    reg0: RegistryV,
    hc: (bool, Seq<char>),
    blocks: Seq<BlockV>,
    reg1: RegistryV,
) -> bool {
    let cf = chapter_final(env, events, hl, images, reg0);
    &&& highlighting_ok(hc, cf.code_seen, hl)
    &&& blocks == cf.out
    &&& reg1 == cf.reg
}

/// `body_result` holds for a highlighting (there is only one: each entry
/// is fixed by its code block).
pub open spec fn some_body_result(
    env: BodyEnv,
    events: Seq<MdEvent>,
    images: Seq<Option<ImageRefV>>,
    reg0: RegistryV,
    hc: (bool, Seq<char>),
    blocks: Seq<BlockV>,
    reg1: RegistryV,
) -> bool {
    exists|hl: Seq<Seq<Seq<(Seq<char>, CodeStyleV)>>>| #[trigger] body_result(env, events, hl, images, reg0, hc, blocks, reg1)
}

/// The body of a chapter, its code blocks highlighted by `highlighter`
/// and its images placed from `images` in order: the blocks of
/// `exact_run`, each code block given the lines `code_block_lines` gives
/// it; the highlighter's error on the first code block it fails on; an
/// error when the chapter nests too deep (then nothing changes).
pub fn chapter_body(
    section_number: bool,
    styles: &DocxStyles,
    highlighter: &CodeHighlighter,
    reg: &mut DocxRegistry,
    chapter: &ChapterInfo,
    images: &Vec<Option<ImageRef>>,
) -> (r: Result<Vec<Block>, DocxError>)
    requires
        styles.wf(),
        chapter.number matches Some(n) ==> n@.len() + 6 <= usize::MAX,
    ensures
        !events_fit(markdown_events(chapter.content@)) ==> (r matches Err(DocxError::TooDeep) && final(reg)@ == old(reg)@),
        events_fit(markdown_events(chapter.content@)) && !highlighter.enabled ==> r is Ok,
        events_fit(markdown_events(chapter.content@)) ==> match exact_run(
            env_of(section_number, *chapter, *styles, highlighter.background@),
            markdown_events(chapter.content@),
            image_refs_view(images@),
            initial_body(env_of(section_number, *chapter, *styles, highlighter.background@), old(reg)@),
            (highlighter.enabled, highlighter.theme_name()),
        ) {
            Ok((s, _)) => r matches Ok(blocks) && blocks_view(blocks@) == flush_v(s).out && final(reg)@ == flush_v(s).reg,
            Err(m) => r matches Err(DocxError::Highlight(e)) && e@ == m,
        },
        r matches Ok(blocks) ==> some_body_result(
            env_of(section_number, *chapter, *styles, highlighter.background@),
            markdown_events(chapter.content@),
            image_refs_view(images@),
            old(reg)@,
            (highlighter.enabled, highlighter.theme_name()),
            blocks_view(blocks@),
            final(reg)@,
        ),
{
    let events = crate::markdown::parse_markdown(chapter.content.as_str());
    if !check_events_fit(&events) {
        return Err(DocxError::TooDeep);
    }
    let env = chapter_env(section_number, chapter, styles, highlighter.background.as_str());
    let ghost reg0 = reg@;
    let ghost envv = env.env();
    let ghost ims = image_refs_view(images@);
    let ghost mut hl: Seq<Seq<Seq<(Seq<char>, CodeStyleV)>>> = Seq::empty();
    let mut b = BodyBuilder::new(&env, reg);
    let ghost st0 = b.bv(reg@);
    assert(events@.take(0) =~= Seq::<MdEvent>::empty());
    let mut i: usize = 0;
    while i < events.len()
        invariant
            i <= events.len(),
            env.ok(),
            crate::markdown::heading_levels_ok(events@),
            events_fit(events@),
            ims == image_refs_view(images@),
            st0 == initial_body(envv, reg0),
            envv == env.env(),
            events@ == markdown_events(chapter.content@),
            b.bv(reg@) == body_run(envv, events@.take(i as int), hl, ims, st0),
            b.bounded(i as int, nest_count(events@.take(i as int))),
            highlighting_ok((highlighter.enabled, highlighter.theme_name()), b.bv(reg@).code_seen, hl),
            exact_run(envv, events@.take(i as int), ims, st0, (highlighter.enabled, highlighter.theme_name())) == Ok::<_, Seq<char>>((b.bv(reg@), hl)),
            reg0 == old(reg)@,
            envv == env_of(section_number, *chapter, *styles, highlighter.background@),
        decreases events.len() - i,
    {
        let e = &events[i];
        proof {
            lemma_nest_count(events@, i as int);
            lemma_nest_count(events@, i + 1);
            assert(events@.take(i + 1).drop_last() =~= events@.take(i as int));
            assert(crate::markdown::event_level_ok(events@[i as int]));
        }
        let is_code_end = b.code_block.is_some() && (match e {
            MdEvent::End(MdTagEnd::CodeBlock) => true,
            _ => false,
        });
        if is_code_end {
            let (lang, code) = match &b.code_block {
                Some((l, c)) => (l.clone(), c.clone()),
                None => (String::new(), String::new()),
            };
            let ghost before0 = b.bv(reg@);
            proof {
                assert(events@.take(i + 1).drop_last() =~= events@.take(i as int));
                assert(events@.take(i + 1).last() == events@[i as int]);
                assert(before0.code_block == Some((lang@, code@)));
            }
            let lines = match highlighter.lines(lang.as_str(), code.as_str()) {
                Ok(v) => v,
                Err(m) => {
                    proof {
                        assert(exact_run(envv, events@.take(i + 1), ims, st0, (highlighter.enabled, highlighter.theme_name()))
                            == Err::<(BodyV, Seq<Seq<Seq<(Seq<char>, CodeStyleV)>>>), Seq<char>>(m@));
                        lemma_exact_err(envv, events@, ims, st0, (highlighter.enabled, highlighter.theme_name()), i + 1, events@.len() as int, m@);
                        assert(events@.take(events@.len() as int) =~= events@);
                    }
                    return Err(DocxError::Highlight(m));
                },
            };
            let ghost old_hl = hl;
            proof {
                lemma_run_extend(envv, events@.take(i as int), hl, code_lines_view(lines@), ims, st0);
                hl = hl.push(code_lines_view(lines@));
            }
            let ghost before = b.bv(reg@);
            b.end_code(&env, reg, &lines, Ghost(i as int), Ghost(nest_count(events@.take(i as int))));
            proof {
                reveal(body_step);
                assert(pair_of(Some((lang, code))) == (lang@, code@));
                assert(code_at(hl, before.code_seen.len(), code@) == code_lines_view(lines@));
                assert(b.bv(reg@) == body_step(envv, before, *e, hl, ims));
                let after = b.bv(reg@);
                lemma_push_all_keeps(
                    BodyV { code_block: None, code_seen: before.code_seen.push((lang@, code@)), ..before },
                    code_paragraphs_v(code_lines_view(lines@), envv.background, envv.styles.code@),
                );
                assert(after.code_seen =~= before.code_seen.push((lang@, code@)));
                let last = old_hl.len() as int;
                assert(after.code_seen[last] == (lang@, code@));
                assert(hl[last] == code_lines_view(lines@));
                assert forall|k: int| 0 <= k < hl.len() implies #[trigger] block_highlight_ok((highlighter.enabled, highlighter.theme_name()), after.code_seen[k], hl[k]) by {
                    if k < last {
                        assert(after.code_seen[k] == before.code_seen[k]);
                        assert(hl[k] == old_hl[k]);
                        assert(block_highlight_ok((highlighter.enabled, highlighter.theme_name()), before.code_seen[k], old_hl[k]));
                    } else {
                        assert(after.code_seen[k] == (lang@, code@));
                    }
                }
            }
        } else {
            let ghost before = b.bv(reg@);
            proof { lemma_step_code(envv, before, *e, hl, seq![], ims); }
            b.step_other(&env, reg, e, images, Ghost(hl), Ghost(i as int), Ghost(nest_count(events@.take(i as int))));
            assert(b.bv(reg@).code_seen == before.code_seen);
        }
        i += 1;
    }
    assert(events@.take(events.len() as int) =~= events@);
    proof { lemma_nest_count(events@, events.len() as int); }
    b.flush(reg);
    proof { reveal(body_result); }
    assert(body_result(envv, events@, hl, ims, reg0, (highlighter.enabled, highlighter.theme_name()), blocks_view(b.out@), reg@));
    assert(exact_run(envv, events@, ims, st0, (highlighter.enabled, highlighter.theme_name()))
        == Ok::<_, Seq<char>>((body_run(envv, events@, hl, ims, st0), hl)));
    assert(blocks_view(b.out@) == flush_v(body_run(envv, events@, hl, ims, st0)).out);
    assert(envv == env_of(section_number, *chapter, *styles, highlighter.background@));
    let out = b.out;
    assert(some_body_result(
        env_of(section_number, *chapter, *styles, highlighter.background@),
        markdown_events(chapter.content@),
        image_refs_view(images@),
        old(reg)@,
        (highlighter.enabled, highlighter.theme_name()),
        blocks_view(out@),
        reg@,
    ));
    Ok(out)
}

/// The images of a chapter in order, with their alternative text, as the
/// body meets them (see `BodyV::images_seen`); `None` when the chapter
/// nests too deep for a body.
pub fn chapter_image_requests(styles: &DocxStyles, chapter: &ChapterInfo) -> (r: Option<Vec<(String, String)>>)
    requires
        styles.wf(),
        chapter.number matches Some(n) ==> n@.len() + 6 <= usize::MAX,
    ensures
        match r {
            Some(v) => events_fit(markdown_events(chapter.content@)) && crate::docx_registry::pairs_view(v@) == chapter_final(
                env_of(false, *chapter, *styles, seq![]),
                markdown_events(chapter.content@),
                seq![],
                seq![],
                crate::docx_registry::initial_registry(),
            ).images_seen,
            None => !events_fit(markdown_events(chapter.content@)),
        },
{
    let events = crate::markdown::parse_markdown(chapter.content.as_str());
    if !check_events_fit(&events) {
        return None;
    }
    let env = chapter_env(false, chapter, styles, "");
    proof {
        reveal_strlit("");
        assert(""@ =~= Seq::<char>::empty());
    }
    let mut reg = DocxRegistry::new();
    let code: Vec<Vec<Vec<CodeRun>>> = Vec::new();
    let images: Vec<Option<ImageRef>> = Vec::new();
    let ghost reg0 = reg@;
    let ghost envv = env.env();
    let mut b = BodyBuilder::new(&env, &mut reg);
    let ghost st0 = b.bv(reg@);
    assert(highlights_view(code@) =~= seq![]);
    assert(image_refs_view(images@) =~= seq![]);
    assert(events@.take(0) =~= Seq::<MdEvent>::empty());
    let mut i: usize = 0;
    while i < events.len()
        invariant
            i <= events.len(),
            env.ok(),
            crate::markdown::heading_levels_ok(events@),
            events_fit(events@),
            code@.len() == 0,
            images@.len() == 0,
            st0 == initial_body(envv, reg0),
            envv == env.env(),
            events@ == markdown_events(chapter.content@),
            b.bv(reg@) == body_run(envv, events@.take(i as int), highlights_view(code@), image_refs_view(images@), st0),
            b.bounded(i as int, nest_count(events@.take(i as int))),
        decreases events.len() - i,
    {
        proof {
            lemma_nest_count(events@, i as int);
            lemma_nest_count(events@, i + 1);
            assert(events@.take(i + 1).drop_last() =~= events@.take(i as int));
            assert(crate::markdown::event_level_ok(events@[i as int]));
        }
        b.step_with(&env, &mut reg, &events[i], &code, &images, Ghost(i as int), Ghost(nest_count(events@.take(i as int))));
        i += 1;
    }
    assert(events@.take(events.len() as int) =~= events@);
    proof { lemma_nest_count(events@, events.len() as int); }
    assert(highlights_view(code@) =~= seq![]);
    assert(image_refs_view(images@) =~= seq![]);
    b.flush(&reg);
    assert(envv == env_of(false, *chapter, *styles, seq![]));
    assert(b.bv(reg@) == chapter_final(envv, events@, seq![], seq![], crate::docx_registry::initial_registry()));
    Some(b.images_seen)
}

/// Strong emphasis in the DOCX body. Outside code blocks and images, the
/// start of strong text makes the current run style bold and leaves
/// italics, strike-through, code and links as they were (and the
/// paragraph's runs untouched); text after it is written in that bold
/// style; and the end of strong text undoes its start exactly.
pub proof fn lemma_docx_strong(env: BodyEnv, st: BodyV, t: String, hl: Seq<Seq<Seq<(Seq<char>, CodeStyleV)>>>, images: Seq<Option<ImageRefV>>)
    requires
        st.code_block is None,
        st.image is None,
        st.para.bold < usize::MAX,
    ensures
        ({
            let s1 = body_step(env, st, MdEvent::Start(MdTag::Strong), hl, images);
            &&& current_style(s1.para) == (RunStyle { bold: true, ..current_style(st.para) })
            &&& s1.para.runs == st.para.runs
            &&& body_step(env, s1, MdEvent::Text(t), hl, images).para
                == push_run_v(s1.para, t@, RunStyle { bold: true, ..current_style(st.para) })
            &&& body_step(env, s1, MdEvent::End(MdTagEnd::Strong), hl, images) == st
        }),
{
    reveal(body_step);
    reveal(body_event);
    let s1 = body_step(env, st, MdEvent::Start(MdTag::Strong), hl, images);
    assert(s1.para.bold == st.para.bold + 1);
    assert(body_step(env, s1, MdEvent::End(MdTagEnd::Strong), hl, images).para =~= st.para);
}

/// Emphasis in the DOCX body. Outside code blocks and images, the
/// start of such text makes the current run style italic and leaves
/// bold, strike-through, code and links as they were (and the
/// paragraph's runs untouched); text after it is written in that style;
/// and the end of such text undoes its start exactly.
pub proof fn lemma_docx_emphasis(env: BodyEnv, st: BodyV, t: String, hl: Seq<Seq<Seq<(Seq<char>, CodeStyleV)>>>, images: Seq<Option<ImageRefV>>)
    requires
        st.code_block is None,
        st.image is None,
        st.para.italic < usize::MAX,
    ensures
        ({
            let s1 = body_step(env, st, MdEvent::Start(MdTag::Emphasis), hl, images);
            &&& current_style(s1.para) == (RunStyle { italic: true, ..current_style(st.para) })
            &&& s1.para.runs == st.para.runs
            &&& body_step(env, s1, MdEvent::Text(t), hl, images).para
                == push_run_v(s1.para, t@, RunStyle { italic: true, ..current_style(st.para) })
            &&& body_step(env, s1, MdEvent::End(MdTagEnd::Emphasis), hl, images) == st
        }),
{
    reveal(body_step);
    reveal(body_event);
    let s1 = body_step(env, st, MdEvent::Start(MdTag::Emphasis), hl, images);
    assert(s1.para.italic == st.para.italic + 1);
    assert(body_step(env, s1, MdEvent::End(MdTagEnd::Emphasis), hl, images).para =~= st.para);
}

/// Struck-through text in the DOCX body. Outside code blocks and images, the
/// start of such text makes the current run style struck through and
/// leaves bold, italics, code and links as they were (and the
/// paragraph's runs untouched); text after it is written in that style;
/// and the end of such text undoes its start exactly.
pub proof fn lemma_docx_strikethrough(env: BodyEnv, st: BodyV, t: String, hl: Seq<Seq<Seq<(Seq<char>, CodeStyleV)>>>, images: Seq<Option<ImageRefV>>)
    requires
        st.code_block is None,
        st.image is None,
        st.para.strike < usize::MAX,
    ensures
        ({
            let s1 = body_step(env, st, MdEvent::Start(MdTag::Strikethrough), hl, images);
            &&& current_style(s1.para) == (RunStyle { strike: true, ..current_style(st.para) })
            &&& s1.para.runs == st.para.runs
            &&& body_step(env, s1, MdEvent::Text(t), hl, images).para
                == push_run_v(s1.para, t@, RunStyle { strike: true, ..current_style(st.para) })
            &&& body_step(env, s1, MdEvent::End(MdTagEnd::Strikethrough), hl, images) == st
        }),
{
    reveal(body_step);
    reveal(body_event);
    let s1 = body_step(env, st, MdEvent::Start(MdTag::Strikethrough), hl, images);
    assert(s1.para.strike == st.para.strike + 1);
    assert(body_step(env, s1, MdEvent::End(MdTagEnd::Strikethrough), hl, images).para =~= st.para);
}

} // verus!
