//! The whole DOCX document: the cover title, the table of contents and the
//! chapters one after another, separated by page breaks.

use vstd::prelude::*;
use crate::book::ChapterInfo;
use crate::docx_body::{
    body_result, chapter_body, chapter_final, env_of, exact_run, flush_v, initial_body, image_refs_view, some_body_result, BodyV, DocxError,
};
use crate::docx_code::CodeHighlighter;
use crate::docx_model::{
    blocks_view, opt_seq, Block, BlockV, FieldCharKind, ImageRef, ImageRefV, LinkTarget, LinkTargetV, Paragraph,
    ParagraphItem, ParagraphItemV, ParagraphV, RunItemV, RunV,
};
use crate::docx_parts::{
    bookmark_view, cover_title_paragraph, cover_title_v, field_char_run, field_code_run,
    heading_paragraph_with_bookmark, heading_with_bookmark_v, page_break_paragraph, page_break_v, tab_run,
    text_run, text_run_v, toc_entry_properties, toc_entry_props, toc_heading_paragraph, toc_heading_v,
    CodeStyleV, RunStyle,
};
use crate::docx_registry::{chapter_mark, path_bookmark, DocxRegistry, RegistryV};
use crate::docx_style::{DocxConfig, DocxStyles};
use crate::heading_number::{clamp, format_section_components, section_text};
use crate::markdown::markdown_events;
use crate::text::{push_char, push_decimal, push_str, to_string, decimal};

verus! {

/// The level of a chapter in DOCX output: the length of its number, at
/// least 1.
pub open spec fn docx_level(c: ChapterInfo) -> nat {
    match c.number {
        Some(n) => if n@.len() > 0 { n@.len() } else { 1 },
        None => 1,
    }
}

/// The title of a chapter in the table of contents: its number first when
/// headings follow section numbers.
pub open spec fn toc_title(section_number: bool, c: ChapterInfo) -> Seq<char> {
    if section_number {
        match c.number {
            Some(n) => section_text(n@) + " "@ + c.name@,
            None => c.name@,
        }
    } else {
        c.name@
    }
}

/// A hyperlink run of the table of contents.
pub open spec fn toc_link_style() -> RunStyle {
    RunStyle { bold: false, italic: false, strike: false, code: false, hyperlink: true }
}

/// A table of contents entry: a link to the chapter's bookmark holding its
/// title and a tab.
pub open spec fn toc_entry_v(level: nat, style: Seq<char>, bookmark: Seq<char>, title: Seq<char>) -> ParagraphV {
    ParagraphV {
        props: Some(toc_entry_props(level, style)),
        items: seq![ParagraphItemV::Hyperlink(
            LinkTargetV::Anchor(bookmark),
            seq![text_run_v(title, toc_link_style()), RunV { props: None, item: RunItemV::Tab }],
        )],
    }
}

/// The entry of a chapter and the registry after it: none for a chapter
/// without a source file.
pub open spec fn toc_entry_of(section_number: bool, styles: DocxStyles, c: ChapterInfo, r: RegistryV) -> (Option<ParagraphV>, RegistryV) {
    match c.source_path {
        None => (None, r),
        Some(sp) => {
            let (r1, name) = path_bookmark(r, sp@);
            let level = clamp(docx_level(c) as int, 1, 9);
            (Some(toc_entry_v(level as nat, styles.toc_entries@[level - 1]@, name, toc_title(section_number, c))), r1)
        },
    }
}

/// The entries of the chapters up to `depth` levels deep.
pub open spec fn toc_entries(section_number: bool, depth: nat, styles: DocxStyles, chapters: Seq<ChapterInfo>, r: RegistryV) -> (Seq<BlockV>, RegistryV)
    decreases chapters.len(),
{
    if chapters.len() == 0 {
        (seq![], r)
    } else {
        let (bs, r1) = toc_entries(section_number, depth, styles, chapters.drop_last(), r);
        let c = chapters.last();
        if docx_level(c) <= depth {
            match toc_entry_of(section_number, styles, c, r1) {
                (Some(p), r2) => (bs.push(BlockV::Paragraph(p)), r2),
                (None, r2) => (bs, r2),
            }
        } else {
            (bs, r1)
        }
    }
}

/// The field instruction of the table of contents.
pub open spec fn toc_instruction(depth: nat) -> Seq<char> {
    " TOC \\o \"1-"@ + decimal(depth) + "\" \\h \\z \\u "@
}

/// A paragraph of field runs.
pub open spec fn field_paragraph(runs: Seq<RunV>) -> ParagraphV {
    ParagraphV { props: None, items: Seq::new(runs.len(), |i: int| ParagraphItemV::Run(runs[i])) }
}

/// The table of contents: the `Contents` heading, a field that Word fills
/// in holding an entry per chapter, and a page break.
pub open spec fn toc_block_v(section_number: bool, depth: nat, styles: DocxStyles, chapters: Seq<ChapterInfo>, r: RegistryV) -> (Seq<BlockV>, RegistryV) {
    let (entries, r1) = toc_entries(section_number, depth, styles, chapters, r);
    (
        seq![
            BlockV::Paragraph(toc_heading_v("Contents"@, styles.toc_heading@)),
            BlockV::Paragraph(field_paragraph(seq![
                RunV { props: None, item: RunItemV::FieldChar(FieldCharKind::Begin, true) },
                RunV { props: None, item: RunItemV::FieldCode(toc_instruction(depth)) },
                RunV { props: None, item: RunItemV::FieldChar(FieldCharKind::Separate, false) },
            ])),
        ] + entries + seq![
            BlockV::Paragraph(field_paragraph(seq![RunV { props: None, item: RunItemV::FieldChar(FieldCharKind::End, false) }])),
            BlockV::Paragraph(page_break_v()),
        ],
        r1,
    )
}

/// The title of a chapter in the table of contents (see `toc_title`).
pub fn chapter_toc_title(section_number: bool, chapter: &ChapterInfo) -> (r: String)
    ensures
        r@ == toc_title(section_number, *chapter),
{
    if section_number {
        match &chapter.number {
            Some(n) => {
                let mut t = format_section_components(n.as_slice());
                push_char(&mut t, ' ');
                push_str(&mut t, chapter.name.as_str());
                proof { reveal_strlit(" "); }
                assert(t@ =~= section_text(n@) + " "@ + chapter.name@);
                return t;
            },
            None => {},
        }
    }
    chapter.name.clone()
}

/// The table of contents entry of a chapter (see `toc_entry_of`).
pub fn toc_entry_paragraph(section_number: bool, styles: &DocxStyles, reg: &mut DocxRegistry, chapter: &ChapterInfo) -> (r: Option<Paragraph>)
    requires
        styles.wf(),
    ensures
        (match r {
            Some(p) => Some(p@),
            None => None,
        }, final(reg)@) == toc_entry_of(section_number, *styles, *chapter, old(reg)@),
{
    let sp = match &chapter.source_path {
        Some(p) => p,
        None => return None,
    };
    let bookmark = reg.bookmark_for_path(sp.as_str());
    let level0 = crate::docx_body::chapter_level(chapter);
    let level = if level0 > 9 { 9 } else { level0 };
    let title = chapter_toc_title(section_number, chapter);
    let run = text_run(title.as_str(), RunStyle { bold: false, italic: false, strike: false, code: false, hyperlink: true });
    let runs = vec![run, tab_run()];
    assert(crate::docx_model::runs_view(runs@) =~= seq![text_run_v(title@, toc_link_style()), RunV { props: None, item: RunItemV::Tab }]);
    let p = Paragraph {
        props: Some(toc_entry_properties(level, styles)),
        items: vec![ParagraphItem::Hyperlink(LinkTarget::Anchor(bookmark), runs)],
    };
    assert(p@.items =~= toc_entry_of(section_number, *styles, *chapter, old(reg)@).0->0.items);
    Some(p)
}

fn push_block(out: &mut Vec<Block>, b: Block)
    ensures
        blocks_view(final(out)@) == blocks_view(old(out)@).push(b@),
{
    out.push(b);
    assert(blocks_view(out@) =~= blocks_view(old(out)@).push(b@));
}

/// The blocks of `more` added at the end.
fn append_blocks(out: &mut Vec<Block>, more: Vec<Block>)
    ensures
        blocks_view(final(out)@) == blocks_view(old(out)@) + blocks_view(more@),
{
    let ghost start = blocks_view(out@);
    let ghost all = blocks_view(more@);
    let mut rest = more;
    let n = rest.len();
    let mut k: usize = 0;
    while k < n
        invariant
            n == all.len(),
            k <= n,
            rest@.len() == n - k,
            forall|j: int| 0 <= j < rest@.len() ==> #[trigger] rest@[j]@ == all[j + k],
            blocks_view(out@) == start + all.take(k as int),
        decreases n - k,
    {
        let b = rest.remove(0);
        assert(all.take(k + 1) =~= all.take(k as int).push(b@));
        push_block(out, b);
        k += 1;
    }
    assert(all.take(n as int) =~= all);
}

/// The table of contents (see `toc_block_v`).
pub fn toc_block(cfg: &DocxConfig, styles: &DocxStyles, reg: &mut DocxRegistry, chapters: &Vec<ChapterInfo>) -> (r: Vec<Block>)
    requires
        styles.wf(),
    ensures
        (blocks_view(r@), final(reg)@) == toc_block_v(cfg.section_number, clamp(cfg.toc_depth as int, 1, 9) as nat, *styles, chapters@, old(reg)@),
{
    let depth = cfg.toc_depth();
    let mut out: Vec<Block> = Vec::new();
    push_block(&mut out, Block::Paragraph(toc_heading_paragraph("Contents", styles)));
    let mut instruction = to_string(" TOC \\o \"1-");
    push_decimal(&mut instruction, depth as u64);
    push_str(&mut instruction, "\" \\h \\z \\u ");
    let begin = Paragraph {
        props: None,
        items: vec![
            ParagraphItem::Run(field_char_run(FieldCharKind::Begin, true)),
            ParagraphItem::Run(field_code_run(instruction.as_str())),
            ParagraphItem::Run(field_char_run(FieldCharKind::Separate, false)),
        ],
    };
    assert(begin@.items =~= field_paragraph(seq![
        RunV { props: None, item: RunItemV::FieldChar(FieldCharKind::Begin, true) },
        RunV { props: None, item: RunItemV::FieldCode(toc_instruction(depth as nat)) },
        RunV { props: None, item: RunItemV::FieldChar(FieldCharKind::Separate, false) },
    ]).items);
    push_block(&mut out, Block::Paragraph(begin));
    let ghost head = blocks_view(out@);
    let ghost reg0 = reg@;
    let mut i: usize = 0;
    assert(chapters@.take(0) =~= Seq::<ChapterInfo>::empty());
    while i < chapters.len()
        invariant
            i <= chapters.len(),
            styles.wf(),
            depth == clamp(cfg.toc_depth as int, 1, 9),
            (blocks_view(out@), reg@) == (head + toc_entries(cfg.section_number, depth as nat, *styles, chapters@.take(i as int), reg0).0,
                toc_entries(cfg.section_number, depth as nat, *styles, chapters@.take(i as int), reg0).1),
        decreases chapters.len() - i,
    {
        assert(chapters@.take(i + 1).drop_last() =~= chapters@.take(i as int));
        let c = &chapters[i];
        if crate::docx_body::chapter_level(c) <= depth {
            match toc_entry_paragraph(cfg.section_number, styles, reg, c) {
                Some(p) => {
                    let ghost before = blocks_view(out@);
                    push_block(&mut out, Block::Paragraph(p));
                    assert(blocks_view(out@) =~= head + toc_entries(cfg.section_number, depth as nat, *styles, chapters@.take(i + 1), reg0).0);
                },
                None => {},
            }
        }
        i += 1;
    }
    assert(chapters@.take(chapters.len() as int) =~= chapters@);
    let end = Paragraph { props: None, items: vec![ParagraphItem::Run(field_char_run(FieldCharKind::End, false))] };
    assert(end@.items =~= field_paragraph(seq![RunV { props: None, item: RunItemV::FieldChar(FieldCharKind::End, false) }]).items);
    push_block(&mut out, Block::Paragraph(end));
    push_block(&mut out, Block::Paragraph(page_break_paragraph()));
    proof {
        reveal_strlit("Contents");
        reveal_strlit(" TOC \\o \"1-");
        reveal_strlit("\" \\h \\z \\u ");
    }
    assert(blocks_view(out@) =~= toc_block_v(cfg.section_number, depth as nat, *styles, chapters@, reg0).0);
    out
}

/// The pictures found for the images of chapter `k`.
pub open spec fn chapter_images(images: Seq<Seq<Option<ImageRefV>>>, k: int) -> Seq<Option<ImageRefV>> {
    if 0 <= k < images.len() { images[k] } else { seq![] }
}

/// The heading that stands for a chapter whose body is empty: the chapter's
/// name at its level, with its bookmark.
pub open spec fn empty_chapter_v(styles: DocxStyles, c: ChapterInfo, bookmark: Option<(Seq<char>, Seq<char>)>) -> ParagraphV {
    heading_with_bookmark_v(styles.headings@[clamp(docx_level(c) as int, 1, 9) - 1]@, c.name@, bookmark)
}

/// The chapters' blocks and the registry after them, each chapter's code
/// blocks highlighted as in `hls`, and whether each highlighting is the
/// one `code_block_lines` gives: page breaks between chapters; a chapter
/// without body blocks is its heading.
#[verifier::opaque]
pub open spec fn chapters_v(
    section_number: bool,
    pagebreak: bool,
    styles: DocxStyles,
    background: Seq<char>,
    hc: (bool, Seq<char>),
    chapters: Seq<ChapterInfo>,
    hls: Seq<Seq<Seq<Seq<(Seq<char>, CodeStyleV)>>>>,
    images: Seq<Seq<Option<ImageRefV>>>,
    r: RegistryV,
) -> (Seq<BlockV>, RegistryV, bool)
    decreases chapters.len(),
{
    if chapters.len() == 0 {
        (seq![], r, true)
    } else {
        let k = chapters.len() - 1;
        let (prev, r1, ok) = chapters_v(section_number, pagebreak, styles, background, hc, chapters.drop_last(), hls, images, r);
        let c = chapters[k];
        let env = env_of(section_number, c, styles, background);
        let events = markdown_events(c.content@);
        let hl = if k < hls.len() { hls[k] } else { seq![] };
        let cf = chapter_final(env, events, hl, chapter_images(images, k), r1);
        let ok1 = ok && k < hls.len() && crate::docx_body::highlighting_ok(hc, cf.code_seen, hl);
        let sep: Seq<BlockV> = if k > 0 && pagebreak { seq![BlockV::Paragraph(page_break_v())] } else { seq![] };
        if cf.out.len() == 0 {
            let (r2, bm) = chapter_mark(cf.reg, opt_seq(c.source_path));
            (prev + sep + seq![BlockV::Paragraph(empty_chapter_v(styles, c, bm))], r2, ok1)
        } else {
            (prev + sep + cf.out, cf.reg, ok1)
        }
    }
}

/// The chapters' part depends on the highlighting of those chapters only.
pub proof fn lemma_chapters_prefix(
    section_number: bool,
    pagebreak: bool,
    styles: DocxStyles,
    background: Seq<char>,
    hc: (bool, Seq<char>),
    chapters: Seq<ChapterInfo>,
    hls: Seq<Seq<Seq<Seq<(Seq<char>, CodeStyleV)>>>>,
    x: Seq<Seq<Seq<(Seq<char>, CodeStyleV)>>>,
    images: Seq<Seq<Option<ImageRefV>>>,
    r: RegistryV,
)
    requires
        chapters.len() <= hls.len(),
    ensures
        chapters_v(section_number, pagebreak, styles, background, hc, chapters, hls.push(x), images, r)
            == chapters_v(section_number, pagebreak, styles, background, hc, chapters, hls, images, r),
    decreases chapters.len(),
{
    reveal(chapters_v);
    if chapters.len() > 0 {
        lemma_chapters_prefix(section_number, pagebreak, styles, background, hc, chapters.drop_last(), hls, x, images, r);
    }
}

/// The chapters' part after one more chapter whose body came out as
/// `body`, with the registry `r` after it.
pub proof fn lemma_chapters_next(
    section_number: bool,
    pagebreak: bool,
    styles: DocxStyles,
    background: Seq<char>,
    hc: (bool, Seq<char>),
    chapters: Seq<ChapterInfo>,
    i: int,
    hls: Seq<Seq<Seq<Seq<(Seq<char>, CodeStyleV)>>>>,
    h: Seq<Seq<Seq<(Seq<char>, CodeStyleV)>>>,
    images: Seq<Seq<Option<ImageRefV>>>,
    r0: RegistryV,
    body: Seq<BlockV>,
    r: RegistryV,
)
    requires
        0 <= i < chapters.len(),
        hls.len() == i,
        chapters_v(section_number, pagebreak, styles, background, hc, chapters.take(i), hls, images, r0).2,
        body_result(
            env_of(section_number, chapters[i], styles, background),
            markdown_events(chapters[i].content@),
            h,
            chapter_images(images, i),
            chapters_v(section_number, pagebreak, styles, background, hc, chapters.take(i), hls, images, r0).1,
            hc,
            body,
            r,
        ),
    ensures
        ({
            let prev = chapters_v(section_number, pagebreak, styles, background, hc, chapters.take(i), hls, images, r0);
            let sep: Seq<BlockV> = if i > 0 && pagebreak { seq![BlockV::Paragraph(page_break_v())] } else { seq![] };
            let c = chapters[i];
            chapters_v(section_number, pagebreak, styles, background, hc, chapters.take(i + 1), hls.push(h), images, r0) == if body.len() == 0 {
                (prev.0 + sep + seq![BlockV::Paragraph(empty_chapter_v(styles, c, chapter_mark(r, opt_seq(c.source_path)).1))],
                    chapter_mark(r, opt_seq(c.source_path)).0, true)
            } else {
                (prev.0 + sep + body, r, true)
            }
        }),
{
    reveal(chapters_v);
    reveal(body_result);
    lemma_chapters_prefix(section_number, pagebreak, styles, background, hc, chapters.take(i), hls, h, images, r0);
    assert(chapters.take(i + 1).drop_last() =~= chapters.take(i));
    assert(chapters.take(i + 1)[i] == chapters[i]);
}

/// The chapters' blocks and the registry after them as `chapters_v` lays
/// them out, each chapter's code blocks given the lines `code_block_lines`
/// gives them (see `exact_run`); the error of the first chapter on which
/// the highlighter fails instead.
pub open spec fn chapters_exact(
    section_number: bool,
    pagebreak: bool,
    styles: DocxStyles,
    background: Seq<char>,
    hc: (bool, Seq<char>),
    chapters: Seq<ChapterInfo>,
    images: Seq<Seq<Option<ImageRefV>>>,
    r: RegistryV,
) -> Result<(Seq<BlockV>, RegistryV), Seq<char>>
    decreases chapters.len(),
{
    if chapters.len() == 0 {
        Ok((seq![], r))
    } else {
        match chapters_exact(section_number, pagebreak, styles, background, hc, chapters.drop_last(), images, r) {
            Err(m) => Err(m),
            Ok((prev, r1)) => {
                let k = chapters.len() - 1;
                let c = chapters[k];
                let env = env_of(section_number, c, styles, background);
                match exact_run(env, markdown_events(c.content@), chapter_images(images, k), initial_body(env, r1), hc) {
                    Err(m) => Err(m),
                    Ok((s, _)) => {
                        let cf = flush_v(s);
                        let sep: Seq<BlockV> = if k > 0 && pagebreak { seq![BlockV::Paragraph(page_break_v())] } else { seq![] };
                        if cf.out.len() == 0 {
                            let (r2, bm) = chapter_mark(cf.reg, opt_seq(c.source_path));
                            Ok((prev + sep + seq![BlockV::Paragraph(empty_chapter_v(styles, c, bm))], r2))
                        } else {
                            Ok((prev + sep + cf.out, cf.reg))
                        }
                    },
                }
            },
        }
    }
}

/// Once a chapter fails, the chapters fail with its error whatever
/// chapters follow.
proof fn lemma_chapters_exact_err(
    section_number: bool,
    pagebreak: bool,
    styles: DocxStyles,
    background: Seq<char>,
    hc: (bool, Seq<char>),
    chapters: Seq<ChapterInfo>,
    images: Seq<Seq<Option<ImageRefV>>>,
    r: RegistryV,
    n: int,
    j: int,
    m: Seq<char>,
)
    requires
        0 <= n <= j <= chapters.len(),
        chapters_exact(section_number, pagebreak, styles, background, hc, chapters.take(n), images, r)
            == Err::<(Seq<BlockV>, RegistryV), Seq<char>>(m),
    ensures
        chapters_exact(section_number, pagebreak, styles, background, hc, chapters.take(j), images, r)
            == Err::<(Seq<BlockV>, RegistryV), Seq<char>>(m),
    decreases j - n,
{
    if j > n {
        lemma_chapters_exact_err(section_number, pagebreak, styles, background, hc, chapters, images, r, n, j - 1, m);
        assert(chapters.take(j).drop_last() =~= chapters.take(j - 1));
    }
}

/// `chapters_exact` after one more chapter.
proof fn lemma_chapters_exact_next(
    section_number: bool,
    pagebreak: bool,
    styles: DocxStyles,
    background: Seq<char>,
    hc: (bool, Seq<char>),
    chapters: Seq<ChapterInfo>,
    i: int,
    images: Seq<Seq<Option<ImageRefV>>>,
    r: RegistryV,
    prev: (Seq<BlockV>, RegistryV),
)
    requires
        0 <= i < chapters.len(),
        chapters_exact(section_number, pagebreak, styles, background, hc, chapters.take(i), images, r) == Ok::<_, Seq<char>>(prev),
    ensures
        ({
            let c = chapters[i];
            let env = env_of(section_number, c, styles, background);
            chapters_exact(section_number, pagebreak, styles, background, hc, chapters.take(i + 1), images, r)
                == match exact_run(env, markdown_events(c.content@), chapter_images(images, i), initial_body(env, prev.1), hc) {
                Err(m) => Err(m),
                Ok((s, _)) => {
                    let cf = flush_v(s);
                    let sep: Seq<BlockV> = if i > 0 && pagebreak { seq![BlockV::Paragraph(page_break_v())] } else { seq![] };
                    if cf.out.len() == 0 {
                        Ok((prev.0 + sep + seq![BlockV::Paragraph(empty_chapter_v(styles, c, chapter_mark(cf.reg, opt_seq(c.source_path)).1))],
                            chapter_mark(cf.reg, opt_seq(c.source_path)).0))
                    } else {
                        Ok((prev.0 + sep + cf.out, cf.reg))
                    }
                },
            }
        }),
{
    assert(chapters.take(i + 1).drop_last() =~= chapters.take(i));
    assert(chapters.take(i + 1)[i] == chapters[i]);
}

/// The whole document (see `document_v`), each code block given the lines
/// `code_block_lines` gives it; the error of the first chapter on which the
/// highlighter fails instead.
pub open spec fn document_exact(
    cfg: DocxConfig,
    title: Option<Seq<char>>,
    styles: DocxStyles,
    background: Seq<char>,
    hc: (bool, Seq<char>),
    chapters: Seq<ChapterInfo>,
    images: Seq<Seq<Option<ImageRefV>>>,
    r: RegistryV,
) -> Result<(Seq<BlockV>, RegistryV), Seq<char>> {
    let (toc, r1) = toc_part(cfg, styles, chapters, r);
    match chapters_exact(cfg.section_number, !cfg.chapter_no_pagebreak, styles, background, hc, chapters, images, r1) {
        Ok((body, r2)) => Ok((cover_v(title, styles) + toc + body, r2)),
        Err(m) => Err(m),
    }
}

/// The whole document: the cover title and a page break when the book has
/// a title, the table of contents when the settings ask for it, then the
/// chapters.
pub open spec fn document_v(
    cfg: DocxConfig,
    title: Option<Seq<char>>,
    styles: DocxStyles,
    background: Seq<char>,
    hc: (bool, Seq<char>),
    chapters: Seq<ChapterInfo>,
    hls: Seq<Seq<Seq<Seq<(Seq<char>, CodeStyleV)>>>>,
    images: Seq<Seq<Option<ImageRefV>>>,
    r: RegistryV,
) -> (Seq<BlockV>, RegistryV, bool) {
    let (toc, r1) = toc_part(cfg, styles, chapters, r);
    let (body, r2, ok) = chapters_v(cfg.section_number, !cfg.chapter_no_pagebreak, styles, background, hc, chapters, hls, images, r1);
    (cover_v(title, styles) + toc + body, r2, ok)
}

/// The cover: the title and a page break, when the book has a title.
pub open spec fn cover_v(title: Option<Seq<char>>, styles: DocxStyles) -> Seq<BlockV> {
    match title {
        Some(t) => seq![BlockV::Paragraph(cover_title_v(t, styles.title@)), BlockV::Paragraph(page_break_v())],
        None => seq![],
    }
}

/// The table of contents when the settings ask for one.
pub open spec fn toc_part(cfg: DocxConfig, styles: DocxStyles, chapters: Seq<ChapterInfo>, r: RegistryV) -> (Seq<BlockV>, RegistryV) {
    if cfg.toc {
        toc_block_v(cfg.section_number, clamp(cfg.toc_depth as int, 1, 9) as nat, styles, chapters, r)
    } else {
        (seq![], r)
    }
}

/// `document_v` holds for a highlighting of the chapters that is the one
/// `code_block_lines` gives.
pub open spec fn some_document(
    cfg: DocxConfig,
    title: Option<Seq<char>>,
    styles: DocxStyles,
    background: Seq<char>,
    hc: (bool, Seq<char>),
    chapters: Seq<ChapterInfo>,
    images: Seq<Seq<Option<ImageRefV>>>,
    r: RegistryV,
    blocks: Seq<BlockV>,
    r1: RegistryV,
) -> bool {
    exists|hls: Seq<Seq<Seq<Seq<(Seq<char>, CodeStyleV)>>>>| #[trigger] document_v(cfg, title, styles, background, hc, chapters, hls, images, r)
        == (blocks, r1, true)
}

pub open spec fn images_view(v: Seq<Vec<Option<ImageRef>>>) -> Seq<Seq<Option<ImageRefV>>> {
    Seq::new(v.len(), |i: int| image_refs_view(v[i]@))
}

/// No chapter nests block quotes and lists too deep for a body.
pub open spec fn all_fit(chapters: Seq<ChapterInfo>) -> bool {
    forall|i: int| 0 <= i < chapters.len() ==> crate::docx_body::events_fit(markdown_events(#[trigger] chapters[i].content@))
}

/// Every chapter's number leaves room for the heading levels below it.
pub open spec fn numbers_fit(chapters: Seq<ChapterInfo>) -> bool {
    forall|i: int| 0 <= i < chapters.len() ==> (#[trigger] chapters[i].number matches Some(n) ==> n@.len() + 6 <= usize::MAX)
}

/// The document (see `document_exact`), the images of chapter `k` placed
/// from `images[k]`; an error when a chapter fails (see `chapter_body`).
#[verifier::rlimit(40)]
pub fn document(
    cfg: &DocxConfig,
    title: Option<&str>,
    chapters: &Vec<ChapterInfo>,
    styles: &DocxStyles,
    highlighter: &CodeHighlighter,
    reg: &mut DocxRegistry,
    images: &Vec<Vec<Option<ImageRef>>>,
) -> (r: Result<Vec<Block>, DocxError>)
    requires
        styles.wf(),
        numbers_fit(chapters@),
    ensures
        !highlighter.enabled && all_fit(chapters@) ==> r is Ok,
        all_fit(chapters@) ==> match document_exact(
            *cfg,
            match title {
                Some(t) => Some(t@),
                None => None,
            },
            *styles,
            highlighter.background@,
            (highlighter.enabled, highlighter.theme_name()),
            chapters@,
            images_view(images@),
            old(reg)@,
        ) {
            Ok((blocks, r1)) => r matches Ok(b) && blocks_view(b@) == blocks && final(reg)@ == r1,
            Err(m) => r matches Err(DocxError::Highlight(e)) && e@ == m,
        },
        r matches Ok(blocks) ==> some_document(
            *cfg,
            match title {
                Some(t) => Some(t@),
                None => None,
            },
            *styles,
            highlighter.background@,
            (highlighter.enabled, highlighter.theme_name()),
            chapters@,
            images_view(images@),
            old(reg)@,
            blocks_view(blocks@),
            final(reg)@,
        ),
{
    let ghost tv = match title {
        Some(t) => Some(t@),
        None => None,
    };
    let ghost ims = images_view(images@);
    let ghost reg0 = reg@;
    let mut out: Vec<Block> = Vec::new();
    match title {
        Some(t) => {
            push_block(&mut out, Block::Paragraph(cover_title_paragraph(t, styles)));
            push_block(&mut out, Block::Paragraph(page_break_paragraph()));
        },
        None => {},
    }
    assert(blocks_view(out@) =~= cover_v(tv, *styles));
    if cfg.toc {
        let toc = toc_block(cfg, styles, reg, chapters);
        append_blocks(&mut out, toc);
    } else {
        assert(blocks_view(out@) =~= cover_v(tv, *styles) + Seq::<BlockV>::empty());
    }
    assert(blocks_view(out@) == cover_v(tv, *styles) + toc_part(*cfg, *styles, chapters@, reg0).0);
    assert(reg@ == toc_part(*cfg, *styles, chapters@, reg0).1);
    let ghost head = blocks_view(out@);
    let ghost reg1 = reg@;
    let ghost mut hls: Seq<Seq<Seq<Seq<(Seq<char>, CodeStyleV)>>>> = Seq::empty();
    let mut i: usize = 0;
    assert(chapters@.take(0) =~= Seq::<ChapterInfo>::empty());
    proof {
        reveal(chapters_v);
        assert(head + Seq::<BlockV>::empty() =~= head);
    }
    while i < chapters.len()
        invariant
            i <= chapters.len(),
            styles.wf(),
            numbers_fit(chapters@),
            ims == images_view(images@),
            hls.len() == i,
            blocks_view(out@) == head + chapters_v(cfg.section_number, !cfg.chapter_no_pagebreak, *styles, highlighter.background@, (highlighter.enabled, highlighter.theme_name()), chapters@.take(i as int), hls, ims, reg1).0,
            reg@ == chapters_v(cfg.section_number, !cfg.chapter_no_pagebreak, *styles, highlighter.background@, (highlighter.enabled, highlighter.theme_name()), chapters@.take(i as int), hls, ims, reg1).1,
            chapters_v(cfg.section_number, !cfg.chapter_no_pagebreak, *styles, highlighter.background@, (highlighter.enabled, highlighter.theme_name()), chapters@.take(i as int), hls, ims, reg1).2,
            all_fit(chapters@) ==> chapters_exact(cfg.section_number, !cfg.chapter_no_pagebreak, *styles, highlighter.background@, (highlighter.enabled, highlighter.theme_name()), chapters@.take(i as int), ims, reg1)
                == Ok::<_, Seq<char>>((
                    chapters_v(cfg.section_number, !cfg.chapter_no_pagebreak, *styles, highlighter.background@, (highlighter.enabled, highlighter.theme_name()), chapters@.take(i as int), hls, ims, reg1).0,
                    chapters_v(cfg.section_number, !cfg.chapter_no_pagebreak, *styles, highlighter.background@, (highlighter.enabled, highlighter.theme_name()), chapters@.take(i as int), hls, ims, reg1).1,
                )),
            reg1 == toc_part(*cfg, *styles, chapters@, old(reg)@).1,
            head == cover_v(tv, *styles) + toc_part(*cfg, *styles, chapters@, old(reg)@).0,
        decreases chapters.len() - i,
    {
        let c = &chapters[i];
        assert(chapters@.take(i + 1).drop_last() =~= chapters@.take(i as int));
        assert(chapters@[i as int] == *c);
        let no_images: Vec<Option<ImageRef>> = Vec::new();
        let imgs = if i < images.len() { &images[i] } else { &no_images };
        assert(image_refs_view(imgs@) == crate::docx_document::chapter_images(ims, i as int)) by {
            if i >= images.len() {
                assert(image_refs_view(no_images@) =~= seq![]);
            }
        }
        let ghost r_before = reg@;
        let ghost prev = chapters_v(cfg.section_number, !cfg.chapter_no_pagebreak, *styles, highlighter.background@, (highlighter.enabled, highlighter.theme_name()), chapters@.take(i as int), hls, ims, reg1);
        let body = match chapter_body(cfg.section_number, styles, highlighter, reg, c, imgs) {
            Ok(b) => b,
            Err(e) => {
                proof {
                    if all_fit(chapters@) {
                        assert(crate::docx_body::events_fit(markdown_events(chapters@[i as int].content@)));
                        lemma_chapters_exact_next(cfg.section_number, !cfg.chapter_no_pagebreak, *styles, highlighter.background@,
                            (highlighter.enabled, highlighter.theme_name()), chapters@, i as int, ims, reg1, (prev.0, prev.1));
                        let m = match e {
                            DocxError::Highlight(ref x) => x@,
                            DocxError::TooDeep => seq![],
                        };
                        lemma_chapters_exact_err(cfg.section_number, !cfg.chapter_no_pagebreak, *styles, highlighter.background@,
                            (highlighter.enabled, highlighter.theme_name()), chapters@, ims, reg1, i + 1, chapters@.len() as int, m);
                        assert(chapters@.take(chapters@.len() as int) =~= chapters@);
                    }
                }
                return Err(e);
            },
        };
        let ghost env = env_of(cfg.section_number, *c, *styles, highlighter.background@);
        let ghost h = choose|h: Seq<Seq<Seq<(Seq<char>, CodeStyleV)>>>| #[trigger] body_result(
            env, markdown_events(c.content@), h, image_refs_view(imgs@), r_before, (highlighter.enabled, highlighter.theme_name()), blocks_view(body@), reg@);
        proof {
            lemma_chapters_next(cfg.section_number, !cfg.chapter_no_pagebreak, *styles, highlighter.background@, (highlighter.enabled, highlighter.theme_name()), chapters@, i as int, hls, h, ims, reg1, blocks_view(body@), reg@);
            if all_fit(chapters@) {
                assert(crate::docx_body::events_fit(markdown_events(chapters@[i as int].content@)));
                lemma_chapters_exact_next(cfg.section_number, !cfg.chapter_no_pagebreak, *styles, highlighter.background@,
                    (highlighter.enabled, highlighter.theme_name()), chapters@, i as int, ims, reg1, (prev.0, prev.1));
            }
            hls = hls.push(h);
        }
        if i > 0 && !cfg.chapter_no_pagebreak {
            push_block(&mut out, Block::Paragraph(page_break_paragraph()));
        }
        let ghost mid = blocks_view(out@);
        if body.len() == 0 {
            let bookmark = reg.chapter_bookmark(match &c.source_path {
                Some(p) => Some(p.as_str()),
                None => None,
            });
            let level = crate::docx_body::chapter_level(c);
            push_block(&mut out, Block::Paragraph(heading_paragraph_with_bookmark(level, c.name.as_str(), bookmark, styles)));
        } else {
            append_blocks(&mut out, body);
        }
        i += 1;
    }
    assert(chapters@.take(chapters.len() as int) =~= chapters@);
    assert(document_v(*cfg, tv, *styles, highlighter.background@, (highlighter.enabled, highlighter.theme_name()), chapters@, hls, ims, reg0)
        == (blocks_view(out@), reg@, true));
    Ok(out)
}

/// How many of `chapters` have a source file and a level of at most
/// `depth`.
pub open spec fn listed_count(depth: nat, chapters: Seq<ChapterInfo>) -> nat
    decreases chapters.len(),
{
    if chapters.len() == 0 {
        0
    } else {
        listed_count(depth, chapters.drop_last())
            + if chapters.last().source_path is Some && docx_level(chapters.last()) <= depth { 1nat } else { 0nat }
    }
}

/// The table of contents lists a chapter exactly when it has a source file
/// and its level is at most the depth: one more such chapter adds one
/// entry, which links to that chapter's bookmark under its title; any
/// other chapter adds none. So the contents hold one entry per such
/// chapter, between the two paragraphs that open the field and the two
/// that close it.
pub proof fn lemma_toc_lists(
    section_number: bool,
    depth: nat,
    styles: DocxStyles,
    chapters: Seq<ChapterInfo>,
    c: ChapterInfo,
    r: RegistryV,
)
    ensures
        ({
            let (before, r1) = toc_entries(section_number, depth, styles, chapters, r);
            let after = toc_entries(section_number, depth, styles, chapters.push(c), r).0;
            if c.source_path is Some && docx_level(c) <= depth {
                &&& after.len() == before.len() + 1
                &&& after.last() == BlockV::Paragraph(toc_entry_v(
                    clamp(docx_level(c) as int, 1, 9) as nat,
                    styles.toc_entries@[clamp(docx_level(c) as int, 1, 9) - 1]@,
                    path_bookmark(r1, c.source_path->0@).1,
                    toc_title(section_number, c),
                ))
            } else {
                after == before
            }
        }),
        toc_entries(section_number, depth, styles, chapters, r).0.len() == listed_count(depth, chapters),
        toc_block_v(section_number, depth, styles, chapters, r).0.len() == listed_count(depth, chapters) + 4,
    decreases chapters.len(),
{
    assert(chapters.push(c).drop_last() =~= chapters);
    if chapters.len() > 0 {
        lemma_toc_lists(section_number, depth, styles, chapters.drop_last(), chapters.last(), r);
        assert(chapters.drop_last().push(chapters.last()) =~= chapters);
    }
}

} // verus!
