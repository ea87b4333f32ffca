//! The rewrite of a legacy Word template's body into a renderkit template:
//! where its table of contents, section break and back cover are, which
//! cover paragraphs carry the title and author markers, and the check
//! that every marker is there exactly once.

use vstd::prelude::*;
use crate::text::{
    chars_of, decimal, find_str, is_whitespace, is_ws, join_strings, join_with, lemma_find_from, push_decimal,
    push_str, find_from, string_views, to_string, trim, trim_chars,
};

verus! {

/// The bookmark that marks where the title goes.
pub const TITLE_MARKER: &'static str = "mdbook_renderkit_title";
/// The bookmark that marks where the author goes.
pub const AUTHOR_MARKER: &'static str = "mdbook_renderkit_author";
/// The bookmark that marks where the content goes.
pub const CONTENT_BOOKMARK_MARKER: &'static str = "mdbook_renderkit_content";

/// The kind of a block of a template's body.
#[derive(Clone, Copy, Debug, PartialEq, Eq)]
pub enum BlockKind {
    Paragraph,
    /// A structured document tag, such as a table of contents.
    Sdt,
    Other,
}

/// A block of a template's body, as the rewrite reads it: its kind,
/// whether a paragraph ends a section or holds a drawing, and the text of
/// its runs.
#[derive(Clone, Debug)]
pub struct TemplateBlock {
    pub kind: BlockKind,
    pub section_break: bool,
    pub has_drawing: bool,
    pub text: String,
}

pub open spec fn is_para(b: TemplateBlock) -> bool {
    b.kind == BlockKind::Paragraph
}

/// The first table of contents block.
pub open spec fn first_sdt(blocks: Seq<TemplateBlock>, from: int) -> Option<int>
    decreases blocks.len() - from,
{
    if from < 0 || from >= blocks.len() {
        None
    } else if blocks[from].kind == BlockKind::Sdt {
        Some(from)
    } else {
        first_sdt(blocks, from + 1)
    }
}

/// The first paragraph at or after `from` that ends a section.
pub open spec fn first_break(blocks: Seq<TemplateBlock>, from: int) -> Option<int>
    decreases blocks.len() - from,
{
    if from < 0 || from >= blocks.len() {
        None
    } else if is_para(blocks[from]) && blocks[from].section_break {
        Some(from)
    } else {
        first_break(blocks, from + 1)
    }
}

/// The last paragraph before `end` that holds a drawing.
pub open spec fn last_drawing(blocks: Seq<TemplateBlock>, end: int) -> Option<int>
    decreases end,
{
    if end <= 0 || end > blocks.len() {
        None
    } else if is_para(blocks[end - 1]) && blocks[end - 1].has_drawing {
        Some(end - 1)
    } else {
        last_drawing(blocks, end - 1)
    }
}

/// The paragraphs before `end` whose text is not blank.
pub open spec fn text_indices(blocks: Seq<TemplateBlock>, end: int) -> Seq<int>
    decreases end,
{
    if end <= 0 || end > blocks.len() {
        seq![]
    } else {
        let rest = text_indices(blocks, end - 1);
        if is_para(blocks[end - 1]) && trim(blocks[end - 1].text@).len() > 0 { rest.push(end - 1) } else { rest }
    }
}

/// Where the parts of the new body come from: the cover is the blocks
/// before `toc_start` without the subtitle, followed by the section break,
/// the new table of contents, the content marker, a page break and the
/// back cover. The title and author paragraphs get their markers, and the
/// other cover texts are emptied.
#[derive(Clone, Debug)]
pub struct RewritePlan {
    pub toc_start: usize,
    pub section_break: usize,
    pub back_cover: usize,
    pub title: usize,
    pub subtitle: usize,
    pub author: usize,
    pub blank: Vec<usize>,
}

/// The plan for a template's blocks, or why there is none.
pub open spec fn plan_of(blocks: Seq<TemplateBlock>) -> Result<(int, int, int, int, int, int, Seq<int>), Seq<char>> {
    match first_sdt(blocks, 0) {
        None => Err("legacy template has no TOC block"@),
        Some(toc) => match first_break(blocks, toc + 1) {
            None => Err("legacy template has no paragraph section break"@),
            Some(brk) => match last_drawing(blocks, blocks.len() as int) {
                None => Err("legacy template has no drawing paragraph for the back cover"@),
                Some(back) => {
                    let t = text_indices(blocks, toc);
                    if t.len() < 3 {
                        Err("cover has fewer than three text paragraphs"@)
                    } else {
                        let author_at = t.len() - 2;
                        let blank = t.take(author_at).skip(1) + t.skip(author_at + 1);
                        Ok((toc, brk, back, t[0], t[1], t[author_at], blank))
                    }
                },
            },
        },
    }
}

pub open spec fn plan_view(p: RewritePlan) -> (int, int, int, int, int, int, Seq<int>) {
    (
        p.toc_start as int,
        p.section_break as int,
        p.back_cover as int,
        p.title as int,
        p.subtitle as int,
        p.author as int,
        Seq::new(p.blank@.len(), |i: int| p.blank@[i] as int),
    )
}

fn first_sdt_exec(blocks: &Vec<TemplateBlock>) -> (r: Option<usize>)
    ensures
        match r {
            Some(j) => first_sdt(blocks@, 0) == Some(j as int),
            None => first_sdt(blocks@, 0) is None,
        },
{
    let mut i: usize = 0;
    while i < blocks.len()
        invariant
            i <= blocks.len(),
            first_sdt(blocks@, 0) == first_sdt(blocks@, i as int),
        decreases blocks.len() - i,
    {
        match blocks[i].kind {
            BlockKind::Sdt => return Some(i),
            _ => {},
        }
        i += 1;
    }
    None
}

fn first_break_exec(blocks: &Vec<TemplateBlock>, from: usize) -> (r: Option<usize>)
    ensures
        match r {
            Some(j) => first_break(blocks@, from as int) == Some(j as int),
            None => first_break(blocks@, from as int) is None,
        },
{
    let mut i: usize = from;
    while i < blocks.len()
        invariant
            from <= i,
            first_break(blocks@, from as int) == first_break(blocks@, i as int),
        decreases blocks.len() - i,
    {
        let hit = match blocks[i].kind {
            BlockKind::Paragraph => blocks[i].section_break,
            _ => false,
        };
        if hit {
            return Some(i);
        }
        i += 1;
    }
    None
}

fn last_drawing_exec(blocks: &Vec<TemplateBlock>) -> (r: Option<usize>)
    ensures
        match r {
            Some(j) => last_drawing(blocks@, blocks@.len() as int) == Some(j as int),
            None => last_drawing(blocks@, blocks@.len() as int) is None,
        },
{
    let mut end: usize = blocks.len();
    while end > 0
        invariant
            end <= blocks.len(),
            last_drawing(blocks@, blocks@.len() as int) == last_drawing(blocks@, end as int),
        decreases end,
    {
        let hit = match blocks[end - 1].kind {
            BlockKind::Paragraph => blocks[end - 1].has_drawing,
            _ => false,
        };
        if hit {
            return Some(end - 1);
        }
        end -= 1;
    }
    None
}

fn text_indices_exec(blocks: &Vec<TemplateBlock>, end: usize) -> (r: Vec<usize>)
    requires
        end <= blocks.len(),
    ensures
        Seq::new(r@.len(), |i: int| r@[i] as int) == text_indices(blocks@, end as int),
        forall|i: int| 0 <= i < r@.len() ==> #[trigger] r@[i] < end,
{
    let mut out: Vec<usize> = Vec::new();
    let mut k: usize = 0;
    while k < end
        invariant
            k <= end <= blocks.len(),
            Seq::new(out@.len(), |i: int| out@[i] as int) == text_indices(blocks@, k as int),
            forall|i: int| 0 <= i < out@.len() ==> #[trigger] out@[i] < k,
        decreases end - k,
    {
        let is_p = match blocks[k].kind {
            BlockKind::Paragraph => true,
            _ => false,
        };
        let nonblank = is_p && trim_chars(&chars_of(blocks[k].text.as_str())).len() > 0;
        if nonblank {
            let ghost before = out@;
            out.push(k);
            assert(Seq::new(out@.len(), |i: int| out@[i] as int) =~= Seq::new(before.len(), |i: int| before[i] as int).push(k as int));
        }
        k += 1;
    }
    out
}

/// The plan for a template's blocks (see `plan_of`).
pub fn plan_rewrite(blocks: &Vec<TemplateBlock>) -> (r: Result<RewritePlan, String>)
    ensures
        match r {
            Ok(p) => plan_of(blocks@) == Ok::<(int, int, int, int, int, int, Seq<int>), Seq<char>>(plan_view(p)),
            Err(e) => plan_of(blocks@) == Err::<(int, int, int, int, int, int, Seq<int>), Seq<char>>(e@),
        },
{
    let toc = match first_sdt_exec(blocks) {
        Some(t) => t,
        None => return Err(to_string("legacy template has no TOC block")),
    };
    proof { lemma_first_sdt_in(blocks@, 0); }
    assert(first_sdt(blocks@, 0) == Some(toc as int));
    assert(toc < blocks.len());
    let brk = match first_break_exec(blocks, toc + 1) {
        Some(b) => b,
        None => return Err(to_string("legacy template has no paragraph section break")),
    };
    let back = match last_drawing_exec(blocks) {
        Some(b) => b,
        None => return Err(to_string("legacy template has no drawing paragraph for the back cover")),
    };
    let t = text_indices_exec(blocks, toc);
    let ghost tv = Seq::new(t@.len(), |i: int| t@[i] as int);
    if t.len() < 3 {
        return Err(to_string("cover has fewer than three text paragraphs"));
    }
    let author_at = t.len() - 2;
    let mut blank: Vec<usize> = Vec::new();
    let mut i: usize = 0;
    while i < t.len()
        invariant
            3 <= t.len(),
            author_at == t.len() - 2,
            i <= t.len(),
            tv == Seq::new(t@.len(), |k: int| t@[k] as int),
            Seq::new(blank@.len(), |k: int| blank@[k] as int) =~= (if i <= 1 {
                seq![]
            } else if i <= author_at {
                tv.take(i as int).skip(1)
            } else {
                tv.take(author_at as int).skip(1) + tv.take(i as int).skip(author_at + 1)
            }),
        decreases t.len() - i,
    {
        if i != 0 && i != author_at {
            let ghost before = blank@;
            blank.push(t[i]);
            assert(Seq::new(blank@.len(), |k: int| blank@[k] as int) =~= Seq::new(before.len(), |k: int| before[k] as int).push(t@[i as int] as int));
        }
        i += 1;
    }
    assert(tv.take(t.len() as int) =~= tv);
    Ok(RewritePlan {
        toc_start: toc,
        section_break: brk,
        back_cover: back,
        title: t[0],
        subtitle: t[1],
        author: t[author_at],
        blank,
    })
}

/// A block of the rewritten body and where it comes from.
#[derive(Clone, Copy, Debug, PartialEq, Eq)]
pub enum NewBlock {
    /// The template's block at this index, from the cover; a paragraph
    /// loses its keep-with-next and keep-lines settings.
    Cover(usize),
    /// The template's paragraph at this index that ends the cover's section.
    SectionBreak(usize),
    /// The heading of the new table of contents.
    TocHeading,
    /// The field of the new table of contents.
    TocField,
    PageBreak,
    /// The paragraph that marks where the content goes.
    ContentMarker,
    /// The template's paragraph at this index, holding the back cover.
    BackCover(usize),
}

/// The cover blocks before `end`, without the subtitle.
pub open spec fn cover_blocks(end: int, subtitle: int) -> Seq<NewBlock>
    decreases end,
{
    if end <= 0 {
        seq![]
    } else {
        cover_blocks(end - 1, subtitle) + if end - 1 == subtitle { seq![] } else { seq![NewBlock::Cover((end - 1) as usize)] }
    }
}

/// The rewritten body: the cover without its subtitle, the section break,
/// the new table of contents and a page break, the content marker, a page
/// break and the back cover.
pub open spec fn new_body_v(p: RewritePlan) -> Seq<NewBlock> {
    cover_blocks(p.toc_start as int, p.subtitle as int) + seq![
        NewBlock::SectionBreak(p.section_break),
        NewBlock::TocHeading,
        NewBlock::TocField,
        NewBlock::PageBreak,
        NewBlock::ContentMarker,
        NewBlock::PageBreak,
        NewBlock::BackCover(p.back_cover),
    ]
}

/// The blocks of the rewritten body (see `new_body_v`).
pub fn new_body(plan: &RewritePlan) -> (r: Vec<NewBlock>)
    ensures
        r@ == new_body_v(*plan),
{
    let mut out: Vec<NewBlock> = Vec::new();
    let mut i: usize = 0;
    while i < plan.toc_start
        invariant
            i <= plan.toc_start,
            out@ == cover_blocks(i as int, plan.subtitle as int),
        decreases plan.toc_start - i,
    {
        if i != plan.subtitle {
            out.push(NewBlock::Cover(i));
        }
        assert(out@ =~= cover_blocks(i + 1, plan.subtitle as int));
        i += 1;
    }
    out.push(NewBlock::SectionBreak(plan.section_break));
    out.push(NewBlock::TocHeading);
    out.push(NewBlock::TocField);
    out.push(NewBlock::PageBreak);
    out.push(NewBlock::ContentMarker);
    out.push(NewBlock::PageBreak);
    out.push(NewBlock::BackCover(plan.back_cover));
    assert(out@ =~= new_body_v(*plan));
    out
}

proof fn lemma_first_sdt_in(blocks: Seq<TemplateBlock>, from: int)
    requires
        0 <= from,
    ensures
        forall|j: int| first_sdt(blocks, from) == Some(j) ==> from <= j < blocks.len(),
    decreases blocks.len() - from,
{
    if from < blocks.len() && blocks[from].kind != BlockKind::Sdt {
        lemma_first_sdt_in(blocks, from + 1);
    }
}

/// The instruction of the rewritten table of contents: headings 1 to 9 of
/// the renderkit heading styles.
pub open spec fn aikb_toc_instruction() -> Seq<char> {
    " TOC \\t \""@ + join_with(Seq::new(9, |i: int| "RenderkitHeading"@ + decimal((i + 1) as nat) + ","@ + decimal((i + 1) as nat)), ","@)
        + "\" \\h \\z \\u "@
}

/// The instruction of the rewritten table of contents (see
/// `aikb_toc_instruction`).
pub fn toc_instruction() -> (r: String)
    ensures
        r@ == aikb_toc_instruction(),
{
    let mut parts: Vec<String> = Vec::new();
    let mut level: u64 = 1;
    while level <= 9
        invariant
            1 <= level <= 10,
            string_views(parts@) =~= Seq::new((level - 1) as nat, |i: int| "RenderkitHeading"@ + decimal((i + 1) as nat) + ","@ + decimal((i + 1) as nat)),
        decreases 10 - level,
    {
        let mut p = to_string("RenderkitHeading");
        push_decimal(&mut p, level);
        push_str(&mut p, ",");
        push_decimal(&mut p, level);
        let ghost before = parts@;
        parts.push(p);
        assert(string_views(parts@) =~= string_views(before).push(p@));
        level += 1;
    }
    let joined = join_strings(parts.as_slice(), ",");
    let mut out = to_string(" TOC \\t \"");
    push_str(&mut out, joined.as_str());
    push_str(&mut out, "\" \\h \\z \\u ");
    out
}

/// How many of `names` are `m`.
pub open spec fn count_of(names: Seq<Seq<char>>, m: Seq<char>) -> nat
    decreases names.len(),
{
    if names.len() == 0 { 0 } else { count_of(names.drop_last(), m) + if names.last() == m { 1nat } else { 0nat } }
}

/// The first text that holds `MDBOOK_RENDERKIT_`.
pub open spec fn first_marker_text(texts: Seq<Seq<char>>, from: int) -> Option<int>
    decreases texts.len() - from,
{
    if from < 0 || from >= texts.len() {
        None
    } else if find_from(texts[from], "MDBOOK_RENDERKIT_"@, 0) is Some {
        Some(from)
    } else {
        first_marker_text(texts, from + 1)
    }
}

/// The check of one marker's count.
pub open spec fn marker_count_ok(names: Seq<Seq<char>>, m: Seq<char>) -> Result<(), Seq<char>> {
    let n = count_of(names, m);
    if n == 0 { Err("missing marker "@ + m) } else if n == 1 { Ok(()) } else { Err("repeated marker "@ + m) }
}

/// The markers are sound: no text holds a marker as plain text, and the
/// content, title and author bookmarks each stand exactly once.
pub open spec fn markers_ok(names: Seq<Seq<char>>, texts: Seq<Seq<char>>) -> Result<(), Seq<char>> {
    match first_marker_text(texts, 0) {
        Some(i) => Err("marker is not an exact text run: "@ + texts[i]),
        None => match marker_count_ok(names, CONTENT_BOOKMARK_MARKER@) {
            Err(e) => Err(e),
            Ok(_) => match marker_count_ok(names, TITLE_MARKER@) {
                Err(e) => Err(e),
                Ok(_) => marker_count_ok(names, AUTHOR_MARKER@),
            },
        },
    }
}

fn count_marker(names: &Vec<String>, m: &str) -> (n: usize)
    ensures
        n == count_of(string_views(names@), m@),
{
    let mut n: usize = 0;
    let mut i: usize = 0;
    let ms = to_string(m);
    assert(string_views(names@).take(0) =~= Seq::<Seq<char>>::empty());
    while i < names.len()
        invariant
            i <= names.len(),
            ms@ == m@,
            n <= i,
            n == count_of(string_views(names@).take(i as int), m@),
        decreases names.len() - i,
    {
        assert(string_views(names@).take(i + 1).drop_last() =~= string_views(names@).take(i as int));
        if names[i] == ms {
            n = n + 1;
        }
        i += 1;
    }
    assert(string_views(names@).take(names.len() as int) =~= string_views(names@));
    n
}

fn check_count(names: &Vec<String>, m: &str) -> (r: Result<(), String>)
    ensures
        match r {
            Ok(_) => marker_count_ok(string_views(names@), m@) is Ok,
            Err(e) => marker_count_ok(string_views(names@), m@) == Err::<(), Seq<char>>(e@),
        },
{
    let n = count_marker(names, m);
    if n == 0 {
        let mut e = to_string("missing marker ");
        push_str(&mut e, m);
        Err(e)
    } else if n == 1 {
        Ok(())
    } else {
        let mut e = to_string("repeated marker ");
        push_str(&mut e, m);
        Err(e)
    }
}

/// Checks the markers (see `markers_ok`): `names` are the names of the
/// body's bookmarks, `texts` the texts of its runs.
pub fn validate_markers(names: &Vec<String>, texts: &Vec<String>) -> (r: Result<(), String>)
    ensures
        match r {
            Ok(_) => markers_ok(string_views(names@), string_views(texts@)) is Ok,
            Err(e) => markers_ok(string_views(names@), string_views(texts@)) == Err::<(), Seq<char>>(e@),
        },
{
    let ghost tv = string_views(texts@);
    let pat = chars_of("MDBOOK_RENDERKIT_");
    let mut i: usize = 0;
    while i < texts.len()
        invariant
            i <= texts.len(),
            tv == string_views(texts@),
            pat@ == "MDBOOK_RENDERKIT_"@,
            first_marker_text(tv, 0) == first_marker_text(tv, i as int),
        decreases texts.len() - i,
    {
        let t = chars_of(texts[i].as_str());
        proof { lemma_find_from(t@, pat@, 0); }
        if find_str(&t, &pat).is_some() {
            let mut e = to_string("marker is not an exact text run: ");
            push_str(&mut e, texts[i].as_str());
            return Err(e);
        }
        i += 1;
    }
    match check_count(names, CONTENT_BOOKMARK_MARKER) {
        Err(e) => return Err(e),
        Ok(_) => {},
    }
    match check_count(names, TITLE_MARKER) {
        Err(e) => return Err(e),
        Ok(_) => {},
    }
    check_count(names, AUTHOR_MARKER)
}

/// Whether replaced cover text keeps its spaces: it starts or ends with
/// whitespace.
pub open spec fn cover_text_preserve(s: Seq<char>) -> bool {
    s.len() > 0 && (is_ws(s[0]) || is_ws(s.last()))
}

/// Whether replaced cover text keeps its spaces (see
/// `cover_text_preserve`).
pub fn text_needs_preserve(text: &str) -> (b: bool)
    ensures
        b == cover_text_preserve(text@),
{
    let s = chars_of(text);
    s.len() > 0 && (is_whitespace(s[0]) || is_whitespace(s[s.len() - 1]))
}

/// The texts of a paragraph's `count` text nodes after its text is
/// replaced: the first holds `replacement`, the others nothing; an error
/// for a paragraph without text nodes.
pub fn replaced_texts(count: usize, replacement: &str) -> (r: Result<Vec<Option<String>>, String>)
    ensures
        count == 0 <==> r is Err,
        r matches Err(e) ==> e@ == "cannot replace text in paragraph without w:t nodes"@,
        r matches Ok(v) ==> v@.len() == count && (v@[0] matches Some(t) && t@ == replacement@)
            && forall|i: int| 1 <= i < count ==> #[trigger] v@[i] is None,
{
    if count == 0 {
        return Err(to_string("cannot replace text in paragraph without w:t nodes"));
    }
    let mut v: Vec<Option<String>> = Vec::new();
    v.push(Some(to_string(replacement)));
    let mut i: usize = 1;
    while i < count
        invariant
            1 <= i <= count,
            v@.len() == i,
            v@[0] matches Some(t) && t@ == replacement@,
            forall|k: int| 1 <= k < i ==> #[trigger] v@[k] is None,
        decreases count - i,
    {
        v.push(None);
        i += 1;
    }
    Ok(v)
}

} // verus!
