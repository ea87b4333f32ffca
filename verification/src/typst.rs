//! The Typst (PDF) renderer: escaping, the Typst markup of each Markdown
//! element, and the rendering of a chapter's Markdown events into Typst.

use vstd::prelude::*;
use crate::book::ChapterInfo;
use crate::heading_number::section_text;
use crate::markdown::{MdAlign};
use crate::paths::{
    is_remote_url, label_for_output_path, looks_like_email, md_path_to_html, normalize_output_path,
    output_path, parent_dir, parent_of, spec_is_remote_url, spec_looks_like_email, strip_fragment,
    typst_label, with_html_extension, without_fragment, md_to_html_link, md_link_to_html,
};
use crate::text::{
    chars_eq, chars_of, decimal, ends_with, find_char, find_str, find_from, is_whitespace, occurs_at,
    push_char, push_chars, push_decimal, push_str, replace_all, replace_chars, seq_ends_with,
    seq_starts_with, slice_to_vec, split_once, starts_with, string_of, trim, trim_chars, trim_end,
    trim_end_chars, trim_start, trim_start_chars, lemma_find_from, lemma_first_index_from, is_ws,
    first_index,
};

verus! {

/// Characters that Typst markup gives a meaning.
pub open spec fn is_typst_special(c: char) -> bool {
    c == '\\' || c == '#' || c == '$' || c == '%' || c == '&' || c == '~' || c == '_' || c == '^'
        || c == '*' || c == '@' || c == '<' || c == '>' || c == '[' || c == ']'
}

/// `s` as Typst markup text: each special character behind a backslash.
pub open spec fn escaped_typst(s: Seq<char>) -> Seq<char>
    decreases s.len(),
{
    if s.len() == 0 {
        seq![]
    } else {
        let c = s.last();
        escaped_typst(s.drop_last()) + if is_typst_special(c) { seq!['\\', c] } else { seq![c] }
    }
}

/// Escaping loses nothing: different texts give different markup, so
/// Typst shows each text exactly as written.
pub proof fn lemma_escaped_typst_injective(a: Seq<char>, b: Seq<char>)
    requires
        escaped_typst(a) == escaped_typst(b),
    ensures
        a == b,
    decreases a.len() + b.len(),
{
    if a.len() == 0 || b.len() == 0 {
        if a.len() > 0 {
            assert(escaped_typst(a).len() > 0);
        }
        if b.len() > 0 {
            assert(escaped_typst(b).len() > 0);
        }
        assert(a =~= b);
    } else {
        let x = a.last();
        let y = b.last();
        let ex: Seq<char> = if is_typst_special(x) { seq!['\\', x] } else { seq![x] };
        let ey: Seq<char> = if is_typst_special(y) { seq!['\\', y] } else { seq![y] };
        let ea = escaped_typst(a);
        assert(ea == escaped_typst(a.drop_last()) + ex);
        assert(escaped_typst(b) == escaped_typst(b.drop_last()) + ey);
        assert(ea.last() == x);
        assert(escaped_typst(b).last() == y);
        assert(x == y);
        assert(escaped_typst(a.drop_last()) =~= ea.subrange(0, ea.len() - ex.len()));
        assert(escaped_typst(b.drop_last()) =~= ea.subrange(0, ea.len() - ey.len()));
        lemma_escaped_typst_injective(a.drop_last(), b.drop_last());
        assert(a =~= a.drop_last().push(x));
        assert(b =~= b.drop_last().push(y));
    }
}

/// The body of a Typst string literal for one character.
pub open spec fn string_char(c: char) -> Seq<char> {
    if c == '\\' {
        seq!['\\', '\\']
    } else if c == '"' {
        seq!['\\', '"']
    } else if c == '\n' {
        seq!['\\', 'n']
    } else if c == '\r' {
        seq!['\\', 'r']
    } else if c == '\t' {
        seq!['\\', 't']
    } else {
        seq![c]
    }
}

/// `s` as the body of a Typst string literal.
pub open spec fn escaped_string(s: Seq<char>) -> Seq<char>
    decreases s.len(),
{
    if s.len() == 0 {
        seq![]
    } else {
        escaped_string(s.drop_last()) + string_char(s.last())
    }
}

/// `escaped_string` read from the front.
proof fn lemma_escaped_string_front(s: Seq<char>)
    requires
        s.len() > 0,
    ensures
        escaped_string(s) == string_char(s[0]) + escaped_string(s.subrange(1, s.len() as int)),
    decreases s.len(),
{
    if s.len() == 1 {
        assert(s.drop_last() =~= Seq::<char>::empty());
        assert(s.subrange(1, 1) =~= Seq::<char>::empty());
    } else {
        let t = s.drop_last();
        lemma_escaped_string_front(t);
        assert(t.subrange(1, t.len() as int) =~= s.subrange(1, s.len() as int).drop_last());
        assert(s.subrange(1, s.len() as int).last() == s.last());
    }
}

/// A string literal loses nothing either: different texts give different
/// literals.
pub proof fn lemma_escaped_string_injective(a: Seq<char>, b: Seq<char>)
    requires
        escaped_string(a) == escaped_string(b),
    ensures
        a == b,
    decreases a.len() + b.len(),
{
    if a.len() == 0 || b.len() == 0 {
        if a.len() > 0 {
            lemma_escaped_string_front(a);
        }
        if b.len() > 0 {
            lemma_escaped_string_front(b);
        }
        assert(a =~= b);
    } else {
        lemma_escaped_string_front(a);
        lemma_escaped_string_front(b);
        let ca = string_char(a[0]);
        let cb = string_char(b[0]);
        let e = escaped_string(a);
        assert(e[0] == ca[0]);
        assert(e[0] == cb[0]);
        if ca.len() == 2 {
            assert(e[1] == ca[1]);
        }
        if cb.len() == 2 {
            assert(e[1] == cb[1]);
        }
        assert(ca.len() == 2 ==> e.len() >= 2 && cb.len() == 2) by {
            if ca.len() == 2 && cb.len() == 1 {
                assert(b[0] == cb[0]);
                assert(cb[0] == '\\');
                assert(false);
            }
        }
        assert(cb.len() == 2 ==> ca.len() == 2) by {
            if cb.len() == 2 && ca.len() == 1 {
                assert(a[0] == ca[0]);
                assert(ca[0] == '\\');
                assert(false);
            }
        }
        assert(a[0] == b[0]);
        assert(escaped_string(a.subrange(1, a.len() as int)) =~= e.subrange(ca.len() as int, e.len() as int));
        assert(escaped_string(b.subrange(1, b.len() as int)) =~= e.subrange(cb.len() as int, e.len() as int));
        lemma_escaped_string_injective(a.subrange(1, a.len() as int), b.subrange(1, b.len() as int));
        assert(a =~= seq![a[0]] + a.subrange(1, a.len() as int));
        assert(b =~= seq![b[0]] + b.subrange(1, b.len() as int));
    }
}

/// `text` as Typst markup text (see `escaped_typst`).
pub fn escape_typst(text: &str) -> (r: String)
    ensures
        r@ == escaped_typst(text@),
{
    let s = chars_of(text);
    let mut out = String::new();
    let mut i: usize = 0;
    while i < s.len()
        invariant
            i <= s.len(),
            out@ == escaped_typst(s@.take(i as int)),
        decreases s.len() - i,
    {
        let c = s[i];
        if c == '\\' || c == '#' || c == '$' || c == '%' || c == '&' || c == '~' || c == '_'
            || c == '^' || c == '*' || c == '@' || c == '<' || c == '>' || c == '[' || c == ']' {
            push_char(&mut out, '\\');
            push_char(&mut out, c);
        } else {
            push_char(&mut out, c);
        }
        proof {
            let t = s@.take(i + 1);
            assert(t.drop_last() =~= s@.take(i as int));
            assert(out@ =~= escaped_typst(t));
        }
        i += 1;
    }
    assert(s@.take(s.len() as int) =~= s@);
    out
}

/// `text` as the body of a Typst string literal (see `escaped_string`).
pub fn escape_typst_string(text: &str) -> (r: String)
    ensures
        r@ == escaped_string(text@),
{
    let s = chars_of(text);
    let mut out = String::new();
    let mut i: usize = 0;
    while i < s.len()
        invariant
            i <= s.len(),
            out@ == escaped_string(s@.take(i as int)),
        decreases s.len() - i,
    {
        let c = s[i];
        let ghost before = out@;
        if c == '\\' {
            push_str(&mut out, "\\\\");
        } else if c == '"' {
            push_str(&mut out, "\\\"");
        } else if c == '\n' {
            push_str(&mut out, "\\n");
        } else if c == '\r' {
            push_str(&mut out, "\\r");
        } else if c == '\t' {
            push_str(&mut out, "\\t");
        } else {
            push_char(&mut out, c);
        }
        proof {
            reveal_strlit("\\\\");
            reveal_strlit("\\\"");
            reveal_strlit("\\n");
            reveal_strlit("\\r");
            reveal_strlit("\\t");
            assert(out@ =~= before + string_char(c));
            let t = s@.take(i + 1);
            assert(t.drop_last() =~= s@.take(i as int));
        }
        i += 1;
    }
    assert(s@.take(s.len() as int) =~= s@);
    out
}

/// The markup of a Typst `raw` element.
pub open spec fn raw_markup(text: Seq<char>, block: bool, lang: Option<Seq<char>>) -> Seq<char> {
    "#raw(\""@ + escaped_string(text) + "\""@ + (if block { ", block: true"@ } else { seq![] })
        + (match lang {
        Some(l) => ", lang: \""@ + escaped_string(l) + "\""@,
        None => seq![],
    }) + ")"@
}

/// Appends a Typst `raw` element holding `text`, as a block or inline, with
/// an optional language.
pub fn render_raw(output: &mut String, text: &str, block: bool, lang: Option<&str>)
    ensures
        final(output)@ == old(output)@ + raw_markup(
            text@,
            block,
            match lang {
                Some(l) => Some(l@),
                None => None,
            },
        ),
{
    let ghost o = output@;
    push_str(output, "#raw(\"");
    let e = escape_typst_string(text);
    push_str(output, e.as_str());
    push_char(output, '"');
    proof { reveal_strlit("\""); }
    let ghost mid = output@;
    if block {
        push_str(output, ", block: true");
    }
    let ghost mid2 = output@;
    match lang {
        Some(l) => {
            push_str(output, ", lang: \"");
            let el = escape_typst_string(l);
            push_str(output, el.as_str());
            push_char(output, '"');
        },
        None => {},
    }
    push_str(output, ")");
    proof {
        assert(mid == o + "#raw(\""@ + escaped_string(text@) + "\""@);
        assert(mid2 == mid + (if block { ", block: true"@ } else { seq![] }));
        assert(output@ =~= o + raw_markup(text@, block, match lang { Some(l) => Some(l@), None => None }));
    }
}

/// The Typst alignment of a table column.
pub open spec fn align_markup(a: MdAlign) -> Seq<char> {
    match a {
        MdAlign::Unset => "auto"@,
        MdAlign::Left => "left + horizon"@,
        MdAlign::Center => "center + horizon"@,
        MdAlign::Right => "right + horizon"@,
    }
}

/// The alignments of the columns, separated by `, `.
pub open spec fn aligns_markup(a: Seq<MdAlign>) -> Seq<char>
    decreases a.len(),
{
    if a.len() == 0 {
        seq![]
    } else if a.len() == 1 {
        align_markup(a[0])
    } else {
        aligns_markup(a.drop_last()) + ", "@ + align_markup(a.last())
    }
}

/// The opening of a Typst table with one column per alignment.
pub open spec fn table_start_markup(a: Seq<MdAlign>) -> Seq<char> {
    "#table(\n  columns: "@ + decimal(a.len()) + ",\n  inset: 6pt,\n  align: ("@ + aligns_markup(a)
        + "),\n"@
}

fn align_str(a: MdAlign) -> (r: &'static str)
    ensures
        r@ == align_markup(a),
{
    match a {
        MdAlign::Unset => "auto",
        MdAlign::Left => "left + horizon",
        MdAlign::Center => "center + horizon",
        MdAlign::Right => "right + horizon",
    }
}

/// Appends the opening of a Typst table whose columns have the given
/// alignments.
pub fn render_table_start(output: &mut String, align: &[MdAlign])
    ensures
        final(output)@ == old(output)@ + table_start_markup(align@),
{
    let ghost o = output@;
    push_str(output, "#table(\n  columns: ");
    push_decimal(output, align.len() as u64);
    push_str(output, ",\n  inset: 6pt,\n  align: (");
    let ghost mid = output@;
    let mut i: usize = 0;
    while i < align.len()
        invariant
            i <= align.len(),
            output@ == mid + aligns_markup(align@.take(i as int)),
        decreases align.len() - i,
    {
        let ghost t = align@.take(i + 1);
        assert(t.drop_last() =~= align@.take(i as int));
        if i > 0 {
            push_str(output, ", ");
        } else {
            assert(align@.take(0) =~= Seq::<MdAlign>::empty());
        }
        push_str(output, align_str(align[i]));
        assert(output@ =~= mid + aligns_markup(t));
        i += 1;
    }
    assert(align@.take(align.len() as int) =~= align@);
    push_str(output, "),\n");
    assert(output@ =~= o + table_start_markup(align@));
}

/// Settings of the PDF output (`[output.pdf]`).
pub struct PdfConfig {
    /// A Typst template, relative to the book's root.
    pub template: Option<String>,
    /// Whether ```` ```admonish ```` code blocks become styled boxes.
    pub admonish: bool,
    /// Whether heading levels follow mdBook's section numbers.
    pub section_number: bool,
    /// Whether chapters follow each other without a page break.
    pub chapter_no_pagebreak: bool,
}

impl PdfConfig {
    /// No template, no admonitions, no section numbers, a page break
    /// after every chapter.
    pub fn default_config() -> (r: PdfConfig)
        ensures
            r.template is None,
            !r.admonish,
            !r.section_number,
            !r.chapter_no_pagebreak,
    {
        PdfConfig { template: None, admonish: false, section_number: false, chapter_no_pagebreak: false }
    }
}

/// The Typst level of a Markdown heading: shifted below the chapter's own
/// level when headings follow section numbers and the chapter has a number.
pub open spec fn typst_heading_level(section_number: bool, number: Option<Seq<u32>>, markdown_level: nat) -> nat {
    match number {
        Some(n) => if section_number {
            ((if n.len() > 1 { n.len() as int } else { 1 }) + (if markdown_level > 0 { markdown_level - 1 } else { 0 })) as nat
        } else {
            markdown_level
        },
        None => markdown_level,
    }
}

/// The number of a chapter as a sequence.
pub open spec fn number_view(number: Option<Vec<u32>>) -> Option<Seq<u32>> {
    match number {
        Some(n) => Some(n@),
        None => None,
    }
}

/// The Typst level of a heading of `markdown_level` in `chapter`
/// (see `typst_heading_level`).
pub fn markdown_heading_level(cfg: &PdfConfig, chapter: &ChapterInfo, markdown_level: usize) -> (r: usize)
    requires
        chapter.number matches Some(n) ==> n@.len() + markdown_level <= usize::MAX,
    ensures
        r == typst_heading_level(cfg.section_number, number_view(chapter.number), markdown_level as nat),
{
    if cfg.section_number {
        if let Some(number) = &chapter.number {
            let base = if number.len() > 1 { number.len() } else { 1 };
            let rel = if markdown_level > 0 { markdown_level - 1 } else { 0 };
            return base + rel;
        }
    }
    markdown_level
}


/// Where a chapter's links are resolved from, and the label of the chapter.
pub struct TypstChapter {
    /// The chapter's directory, relative to the book's source directory.
    pub chapter_rel_dir: Option<String>,
    /// The Typst label that links to the chapter point at.
    pub label: String,
    /// Whether this is the Markdown of an admonition rather than a chapter.
    pub is_fragment: bool,
}

/// The view of an optional string.
pub open spec fn opt_view(s: Option<String>) -> Option<Seq<char>> {
    match s {
        Some(t) => Some(t@),
        None => None,
    }
}

/// The directory of a chapter's source file.
pub open spec fn chapter_dir_of(source_path: Option<String>) -> Option<Seq<char>> {
    match source_path {
        Some(p) => parent_dir(p@),
        None => None,
    }
}

/// The label of a chapter: its source path with an `.html` extension, made
/// into a Typst label; `chapter` without a source path.
pub open spec fn chapter_label(source_path: Option<String>) -> Seq<char> {
    match source_path {
        Some(p) => typst_label(with_html_extension(p@)),
        None => "chapter"@,
    }
}

/// The link context of `chapter`.
pub fn chapter_context(chapter: &ChapterInfo) -> (r: TypstChapter)
    ensures
        opt_view(r.chapter_rel_dir) == chapter_dir_of(chapter.source_path),
        r.label@ == chapter_label(chapter.source_path),
        !r.is_fragment,
{
    match &chapter.source_path {
        Some(p) => {
            let dir = parent_of(p.as_str());
            let html = md_path_to_html(p.as_str());
            let label = label_for_output_path(html.as_str());
            TypstChapter { chapter_rel_dir: dir, label, is_fragment: false }
        },
        None => {
            let label = string_of(&chars_of("chapter"));
            TypstChapter { chapter_rel_dir: None, label, is_fragment: false }
        },
    }
}

/// The hidden, outlined heading that carries a chapter's title into the PDF
/// outline, followed by the chapter's label.
pub open spec fn invisible_heading_markup(
    section_number: bool,
    name: Seq<char>,
    number: Option<Seq<u32>>,
    label: Seq<char>,
    level: nat,
) -> Seq<char> {
    "\n"@ + match number {
        Some(n) => if section_number {
            "#{\n  show heading: none\n  heading(numbering: none, level: "@ + decimal(n.len())
                + ", outlined: true, bookmarked: true)[#\""@
                + escaped_string(section_text(n) + " "@ + name) + "\"]\n} <"@
        } else {
            "#{\n  show heading: none\n  heading(numbering: none, level: "@ + decimal(level)
                + ", outlined: true, bookmarked: true)["@ + escaped_typst(name) + "]\n} <"@
        },
        None => "#{\n  show heading: none\n  heading(numbering: none, level: 1, outlined: true, bookmarked: true)["@
            + escaped_typst(name) + "]\n} <"@,
    } + label + ">\n"@
}

/// Appends the hidden chapter heading (see `invisible_heading_markup`).
pub fn render_invisible_chapter_heading(
    output: &mut String,
    cfg: &PdfConfig,
    chapter: &ChapterInfo,
    ctx: &TypstChapter,
    level_usize: usize,
)
    ensures
        final(output)@ == old(output)@ + invisible_heading_markup(
            cfg.section_number,
            chapter.name@,
            number_view(chapter.number),
            ctx.label@,
            level_usize as nat,
        ),
{
    let ghost o = output@;
    push_char(output, '\n');
    let ghost o1 = output@;
    match &chapter.number {
        Some(number) => {
            if cfg.section_number {
                push_str(output, "#{\n  show heading: none\n  heading(numbering: none, level: ");
                push_decimal(output, number.len() as u64);
                push_str(output, ", outlined: true, bookmarked: true)[#\"");
                let mut title = crate::heading_number::format_section_components(number.as_slice());
                push_char(&mut title, ' ');
                push_str(&mut title, chapter.name.as_str());
                let e = escape_typst_string(title.as_str());
                push_str(output, e.as_str());
                push_str(output, "\"]\n} <");
                proof { reveal_strlit(" "); assert(title@ =~= section_text(number@) + " "@ + chapter.name@); }
            } else {
                push_str(output, "#{\n  show heading: none\n  heading(numbering: none, level: ");
                push_decimal(output, level_usize as u64);
                push_str(output, ", outlined: true, bookmarked: true)[");
                let e = escape_typst(chapter.name.as_str());
                push_str(output, e.as_str());
                push_str(output, "]\n} <");
            }
        },
        None => {
            push_str(
                output,
                "#{\n  show heading: none\n  heading(numbering: none, level: 1, outlined: true, bookmarked: true)[",
            );
            let e = escape_typst(chapter.name.as_str());
            push_str(output, e.as_str());
            push_str(output, "]\n} <");
        },
    }
    push_str(output, ctx.label.as_str());
    push_str(output, ">\n");
    proof { reveal_strlit("\n"); }
    assert(output@ =~= o + invisible_heading_markup(
        cfg.section_number,
        chapter.name@,
        number_view(chapter.number),
        ctx.label@,
        level_usize as nat,
    ));
}

/// A relative link made into a path of the rendered book: normalised against
/// the chapter's directory, `.md` turned into `.html`, fragment kept.
pub open spec fn relative_link(dir: Option<Seq<char>>, dest: Seq<char>) -> Seq<char> {
    match split_once(dest, '#') {
        Some((p, f)) => if p.len() == 0 {
            "#"@ + f
        } else {
            md_to_html_link(output_path(dir, p)) + "#"@ + f
        },
        None => md_to_html_link(output_path(dir, dest)),
    }
}

/// `dest_url` made into a path of the rendered book (see `relative_link`).
pub fn normalize_relative_link(chapter_rel_dir: Option<&str>, dest_url: &str) -> (r: String)
    ensures
        r@ == relative_link(
            match chapter_rel_dir {
                Some(d) => Some(d@),
                None => None,
            },
            dest_url@,
        ),
{
    let s = chars_of(dest_url);
    match find_char(&s, '#') {
        Some(i) => {
            let path = crate::text::substring(&s, 0, i);
            let fragment = crate::text::substring(&s, i + 1, s.len());
            if i == 0 {
                let mut out = string_of(&chars_of("#"));
                push_str(&mut out, fragment.as_str());
                return out;
            }
            let n = normalize_output_path(chapter_rel_dir, path.as_str());
            let mut out = md_link_to_html(n.as_str());
            push_char(&mut out, '#');
            push_str(&mut out, fragment.as_str());
            proof { reveal_strlit("#"); }
            out
        },
        None => {
            let n = normalize_output_path(chapter_rel_dir, dest_url);
            md_link_to_html(n.as_str())
        },
    }
}

/// The label of the chapter that a link to a local `.md` file points at, or
/// `None` for other links.
pub open spec fn md_link_label(dir: Option<Seq<char>>, dest: Seq<char>) -> Option<Seq<char>> {
    if spec_is_remote_url(dest) || spec_looks_like_email(dest) {
        None
    } else {
        let p = without_fragment(dest);
        if p.len() == 0 || !seq_ends_with(p, ".md"@) {
            None
        } else {
            Some(typst_label(with_html_extension(output_path(dir, p))))
        }
    }
}

/// Cutting the fragment off twice cuts nothing more.
proof fn lemma_without_fragment_twice(s: Seq<char>)
    ensures
        without_fragment(without_fragment(s)) == without_fragment(s),
{
    let p = without_fragment(s);
    lemma_first_index_from(s, '#', 0);
    lemma_first_index_from(p, '#', 0);
    match first_index(p, '#') {
        Some(k) => {
            assert(p[k] == s[k]);
        },
        None => {},
    }
}

/// A local link to a chapter's Markdown file points at that chapter's
/// label: when a link `dest` in a chapter whose directory is `dir` is
/// neither remote nor an e-mail address, names a `.md` file before its
/// fragment, and resolves to the source path `p` of a chapter, its label
/// is the label that chapter's heading carries.
pub proof fn lemma_md_link_targets_chapter(dir: Option<Seq<char>>, dest: Seq<char>, p: String)
    requires
        !spec_is_remote_url(dest),
        !spec_looks_like_email(dest),
        without_fragment(dest).len() > 0,
        seq_ends_with(without_fragment(dest), ".md"@),
        output_path(dir, dest) == p@,
    ensures
        md_link_label(dir, dest) == Some(chapter_label(Some(p))),
{
    lemma_without_fragment_twice(dest);
}

/// The label a local `.md` link points at (see `md_link_label`).
pub fn local_md_link_label(chapter_rel_dir: Option<&str>, dest_url: &str) -> (r: Option<String>)
    ensures
        opt_view(r) == md_link_label(
            match chapter_rel_dir {
                Some(d) => Some(d@),
                None => None,
            },
            dest_url@,
        ),
{
    if is_remote_url(dest_url) || looks_like_email(dest_url) {
        return None;
    }
    let path = strip_fragment(dest_url);
    let pv = chars_of(path.as_str());
    if pv.len() == 0 || !ends_with(&pv, ".md") {
        return None;
    }
    let o = normalize_output_path(chapter_rel_dir, path.as_str());
    assert(without_fragment(path@) == path@) by {
        lemma_first_index_from(dest_url@, '#', 0);
        lemma_first_index_from(path@, '#', 0);
        match first_index(path@, '#') {
            Some(k) => {
                match first_index(dest_url@, '#') {
                    Some(j) => { assert(path@[k] == dest_url@[k]); },
                    None => { assert(path@[k] == dest_url@[k]); },
                }
            },
            None => {},
        }
    }
    let h = md_path_to_html(o.as_str());
    Some(label_for_output_path(h.as_str()))
}

/// The opening of a Typst link for a Markdown link to `dest`.
pub open spec fn link_start_markup(dir: Option<Seq<char>>, dest: Seq<char>) -> Seq<char> {
    match md_link_label(dir, dest) {
        Some(label) => "#link(<"@ + label + ">)["@,
        None => {
            let url = if spec_is_remote_url(dest) {
                dest
            } else if spec_looks_like_email(dest) {
                "mailto:"@ + dest
            } else {
                relative_link(dir, dest)
            };
            "#link(\""@ + escaped_string(url) + "\")["@
        },
    }
}

/// Appends the opening of a Typst link (see `link_start_markup`).
pub fn render_link_start(output: &mut String, ctx: &TypstChapter, dest_url: &str)
    ensures
        final(output)@ == old(output)@ + link_start_markup(opt_view(ctx.chapter_rel_dir), dest_url@),
{
    let dir: Option<&str> = match &ctx.chapter_rel_dir {
        Some(d) => Some(d.as_str()),
        None => None,
    };
    let ghost o = output@;
    match local_md_link_label(dir, dest_url) {
        Some(label) => {
            push_str(output, "#link(<");
            push_str(output, label.as_str());
            push_str(output, ">)[");
        },
        None => {
            let url = if is_remote_url(dest_url) {
                string_of(&chars_of(dest_url))
            } else if looks_like_email(dest_url) {
                let mut u = string_of(&chars_of("mailto:"));
                push_str(&mut u, dest_url);
                u
            } else {
                normalize_relative_link(dir, dest_url)
            };
            push_str(output, "#link(\"");
            let e = escape_typst_string(url.as_str());
            push_str(output, e.as_str());
            push_str(output, "\")[");
        },
    }
    assert(output@ =~= o + link_start_markup(opt_view(ctx.chapter_rel_dir), dest_url@));
}


/// Length of the leading run of `s` that holds no whitespace and no `>`.
pub open spec fn unquoted_len(s: Seq<char>) -> nat
    decreases s.len(),
{
    if s.len() == 0 || is_ws(s[0]) || s[0] == '>' {
        0
    } else {
        1 + unquoted_len(s.subrange(1, s.len() as int))
    }
}

/// The value of the first `attr=` in an HTML tag: quoted with `"` or `'`, or
/// running to the next whitespace or `>`; `None` when `attr` does not occur,
/// is not followed by `=`, or a quote is not closed.
pub open spec fn attr_value(html: Seq<char>, attr: Seq<char>) -> Option<Seq<char>> {
    match find_from(html, attr, 0) {
        None => None,
        Some(i) => {
            let after_attr = trim_start(html.subrange(i + attr.len(), html.len() as int));
            if seq_starts_with(after_attr, "="@) {
                let after_eq = trim_start(after_attr.subrange(1, after_attr.len() as int));
                let rest = after_eq.subrange(1, after_eq.len() as int);
                if seq_starts_with(after_eq, "\""@) {
                    match split_once(rest, '"') {
                        Some((v, _)) => Some(v),
                        None => None,
                    }
                } else if seq_starts_with(after_eq, "'"@) {
                    match split_once(rest, '\'') {
                        Some((v, _)) => Some(v),
                        None => None,
                    }
                } else {
                    Some(after_eq.subrange(0, unquoted_len(after_eq) as int))
                }
            } else {
                None
            }
        },
    }
}

fn count_unquoted(s: &[char]) -> (n: usize)
    ensures
        n == unquoted_len(s@),
        n <= s.len(),
{
    let mut i: usize = 0;
    assert(s@.subrange(0, s@.len() as int) =~= s@);
    while i < s.len() && !is_whitespace(s[i]) && s[i] != '>'
        invariant
            i <= s.len(),
            unquoted_len(s@) == i + unquoted_len(s@.subrange(i as int, s.len() as int)),
        decreases s.len() - i,
    {
        let ghost t = s@.subrange(i as int, s.len() as int);
        assert(t.subrange(1, t.len() as int) =~= s@.subrange(i + 1, s.len() as int));
        i += 1;
    }
    proof {
        let t = s@.subrange(i as int, s.len() as int);
        if i < s.len() { assert(t[0] == s@[i as int]); }
    }
    i
}

/// The value of attribute `attr` in the HTML tag `html` (see `attr_value`).
pub fn html_attr(html: &str, attr: &str) -> (r: Option<String>)
    ensures
        opt_view(r) == attr_value(html@, attr@),
{
    let h = chars_of(html);
    let a = chars_of(attr);
    let start = match find_str(&h, &a) {
        Some(i) => i,
        None => return None,
    };
    proof { lemma_find_from(h@, a@, 0); }
    assert(occurs_at(h@, a@, start as int));
    let alen = a.len();
    let hlen = h.len();
    assert(start + alen <= hlen);
    let after_attr = trim_start_chars(&slice_to_vec(&h, start + alen, hlen));
    if !starts_with(&after_attr, "=") {
        return None;
    }
    proof { reveal_strlit("="); }
    let after_eq = trim_start_chars(&slice_to_vec(&after_attr, 1, after_attr.len()));
    if starts_with(&after_eq, "\"") {
        proof { reveal_strlit("\""); }
        let rest = slice_to_vec(&after_eq, 1, after_eq.len());
        return match find_char(&rest, '"') {
            Some(k) => Some(crate::text::substring(&rest, 0, k)),
            None => None,
        };
    }
    if starts_with(&after_eq, "'") {
        proof { reveal_strlit("'"); }
        let rest = slice_to_vec(&after_eq, 1, after_eq.len());
        return match find_char(&rest, '\'') {
            Some(k) => Some(crate::text::substring(&rest, 0, k)),
            None => None,
        };
    }
    proof { reveal_strlit("\""); reveal_strlit("'"); }
    let n = count_unquoted(&after_eq);
    Some(crate::text::substring(&after_eq, 0, n))
}


/// The background colour of an admonition of `kind`.
pub open spec fn admonish_fill(kind: Seq<char>) -> Seq<char> {
    if kind == "note"@ {
        "#e8f4fd"@
    } else if kind == "info"@ || kind == "abstract"@ {
        "#e0f7fa"@
    } else if kind == "tip"@ {
        "#e0f2f1"@
    } else if kind == "success"@ || kind == "question"@ {
        "#e6f6e6"@
    } else if kind == "warning"@ {
        "#fff8e1"@
    } else if kind == "reference"@ {
        "#fdf6e3"@
    } else if kind == "danger"@ || kind == "failure"@ {
        "#fde8e8"@
    } else if kind == "bug"@ {
        "#fce4ec"@
    } else if kind == "example"@ {
        "#f3e5f5"@
    } else {
        "#f5f5f5"@
    }
}

/// The accent colour of an admonition of `kind`.
pub open spec fn admonish_accent(kind: Seq<char>) -> Seq<char> {
    if kind == "note"@ {
        "#448aff"@
    } else if kind == "info"@ || kind == "abstract"@ {
        "#00b8d4"@
    } else if kind == "tip"@ {
        "#00bfa5"@
    } else if kind == "success"@ || kind == "question"@ {
        "#00c853"@
    } else if kind == "warning"@ {
        "#ff9100"@
    } else if kind == "reference"@ {
        "#e8a317"@
    } else if kind == "danger"@ || kind == "failure"@ {
        "#ff1744"@
    } else if kind == "bug"@ {
        "#f50057"@
    } else if kind == "example"@ {
        "#7c4dff"@
    } else {
        "#9e9e9e"@
    }
}

/// The background and accent colours of an admonition of `admonish_type`.
pub fn admonish_colors(admonish_type: &str) -> (r: (&'static str, &'static str))
    ensures
        r.0@ == admonish_fill(admonish_type@),
        r.1@ == admonish_accent(admonish_type@),
{
    let k = chars_of(admonish_type);
    if chars_eq(&k, "note") {
        ("#e8f4fd", "#448aff")
    } else if chars_eq(&k, "info") || chars_eq(&k, "abstract") {
        ("#e0f7fa", "#00b8d4")
    } else if chars_eq(&k, "tip") {
        ("#e0f2f1", "#00bfa5")
    } else if chars_eq(&k, "success") || chars_eq(&k, "question") {
        ("#e6f6e6", "#00c853")
    } else if chars_eq(&k, "warning") {
        ("#fff8e1", "#ff9100")
    } else if chars_eq(&k, "reference") {
        ("#fdf6e3", "#e8a317")
    } else if chars_eq(&k, "danger") || chars_eq(&k, "failure") {
        ("#fde8e8", "#ff1744")
    } else if chars_eq(&k, "bug") {
        ("#fce4ec", "#f50057")
    } else if chars_eq(&k, "example") {
        ("#f3e5f5", "#7c4dff")
    } else {
        ("#f5f5f5", "#9e9e9e")
    }
}

/// The kind and title of an admonition from the info string of its code
/// block (`admonish warning title="Careful"`): the word after `admonish`
/// (`note` when there is none) and the quoted title, if any.
pub open spec fn admonish_info(info: Seq<char>) -> (Seq<char>, Seq<char>) {
    let without_prefix = trim(
        if seq_starts_with(info, "admonish"@) { info.subrange(8, info.len() as int) } else { info },
    );
    let (kind, rest) = match split_once(without_prefix, ' ') {
        Some((k, r)) => (k, r),
        None => (without_prefix, seq![]),
    };
    let t = trim(rest);
    let title = if seq_starts_with(t, "title=\""@) {
        let v = t.subrange(7, t.len() as int);
        if seq_ends_with(v, "\""@) { v.subrange(0, v.len() - 1) } else { seq![] }
    } else {
        seq![]
    };
    (if kind.len() == 0 { "note"@ } else { kind }, title)
}

/// The kind and title of an admonition (see `admonish_info`).
pub fn parse_admonish_info(info: &str) -> (r: (String, String))
    ensures
        (r.0@, r.1@) == admonish_info(info@),
{
    let s = chars_of(info);
    proof {
        reveal_strlit("admonish");
        reveal_strlit("title=\"");
        reveal_strlit("\"");
    }
    let stripped = if starts_with(&s, "admonish") { slice_to_vec(&s, 8, s.len()) } else { slice_to_vec(&s, 0, s.len()) };
    assert(s@.subrange(0, s@.len() as int) =~= s@);
    let w = trim_chars(&stripped);
    let (kind, rest) = match find_char(&w, ' ') {
        Some(i) => (slice_to_vec(&w, 0, i), slice_to_vec(&w, i + 1, w.len())),
        None => (slice_to_vec(&w, 0, w.len()), Vec::new()),
    };
    assert(w@.subrange(0, w@.len() as int) =~= w@);
    let t = trim_chars(&rest);
    let title = if starts_with(&t, "title=\"") {
        let v = slice_to_vec(&t, 7, t.len());
        if ends_with(&v, "\"") { slice_to_vec(&v, 0, v.len() - 1) } else { Vec::new() }
    } else {
        Vec::new()
    };
    let k = if kind.len() == 0 { string_of(&chars_of("note")) } else { string_of(&kind) };
    (k, string_of(&title))
}

/// What `char::to_uppercase` maps `c` to.
pub uninterp spec fn uppercase(c: char) -> Seq<char>;

/// `char::to_uppercase`, collected into a string.
#[verifier::external_body]
fn char_to_uppercase(c: char) -> (r: String)
    ensures
        r@ == uppercase(c),
{
    c.to_uppercase().collect()
}

/// `s` with its first character upper-cased.
pub open spec fn capitalized(s: Seq<char>) -> Seq<char> {
    if s.len() == 0 { seq![] } else { uppercase(s[0]) + s.subrange(1, s.len() as int) }
}

/// `value` with its first character upper-cased (see `capitalized`).
pub fn capitalize(value: &str) -> (r: String)
    ensures
        r@ == capitalized(value@),
{
    let s = chars_of(value);
    if s.len() == 0 {
        return String::new();
    }
    let mut out = char_to_uppercase(s[0]);
    push_chars(&mut out, &slice_to_vec(&s, 1, s.len()));
    out
}

/// The placeholder that a PDF template holds for the book's title.
pub open spec fn title_placeholder() -> Seq<char> {
    "MDBOOK_RENDERKIT_TITLE"@
}

/// The placeholder that a PDF template holds for the book's content.
pub open spec fn content_placeholder() -> Seq<char> {
    "/**** MDBOOK_RENDERKIT_CONTENT ****/"@
}

/// The template with every title placeholder replaced by the escaped title,
/// and every content placeholder by the content; without a content
/// placeholder the content follows the template after a blank line.
pub open spec fn templated(template: Seq<char>, title: Seq<char>, content: Seq<char>) -> Seq<char> {
    let rendered = replace_all(template, title_placeholder(), escaped_typst(title));
    if find_from(rendered, content_placeholder(), 0) is Some {
        replace_all(rendered, content_placeholder(), content)
    } else {
        rendered + "\n\n"@ + content
    }
}

/// Fills the placeholders of a PDF template (see `templated`).
pub fn apply_template(template: &str, title: &str, content: &str) -> (r: String)
    ensures
        r@ == templated(template@, title@, content@),
{
    let t = chars_of(template);
    let title_p = chars_of("MDBOOK_RENDERKIT_TITLE");
    let content_p = chars_of("/**** MDBOOK_RENDERKIT_CONTENT ****/");
    let esc = escape_typst(title);
    let rendered = replace_chars(&t, &title_p, &chars_of(esc.as_str()));
    let c = chars_of(content);
    if find_str(&rendered, &content_p).is_some() {
        string_of(&replace_chars(&rendered, &content_p, &c))
    } else {
        let mut out = string_of(&rendered);
        push_str(&mut out, "\n\n");
        push_str(&mut out, content);
        out
    }
}

/// A local image that a chapter shows: it has to be copied into the output
/// directory at `output_path` from where `target` points in the sources.
#[derive(Clone, Debug)]
pub struct ImageCopy {
    /// The image's URL as the Markdown gives it.
    pub target: String,
    /// Where the image goes, relative to the output directory.
    pub output_path: String,
    /// Whether the image appears in an admonition (resolved against the
    /// current directory rather than the book).
    pub in_fragment: bool,
    /// The directory of the chapter that shows it, relative to the book's
    /// source directory.
    pub chapter_dir: Option<String>,
}

impl ImageCopy {
    /// A copy of this entry.
    pub fn clone_copy(&self) -> (r: ImageCopy)
        ensures
            r.target@ == self.target@,
            r.output_path@ == self.output_path@,
            r.in_fragment == self.in_fragment,
            opt_view(r.chapter_dir) == opt_view(self.chapter_dir),
    {
        ImageCopy {
            target: self.target.clone(),
            output_path: self.output_path.clone(),
            in_fragment: self.in_fragment,
            chapter_dir: copy_dir(&self.chapter_dir),
        }
    }
}

/// An image copy as plain values: target, output path, whether it is in
/// an admonition, and the chapter's directory.
pub type CopyV = (Seq<char>, Seq<char>, bool, Option<Seq<char>>);

/// The image copies as plain values.
pub open spec fn copies_view(v: Seq<ImageCopy>) -> Seq<CopyV> {
    Seq::new(v.len(), |i: int| (v[i].target@, v[i].output_path@, v[i].in_fragment, opt_view(v[i].chapter_dir)))
}

fn copy_dir(d: &Option<String>) -> (r: Option<String>)
    ensures
        opt_view(r) == opt_view(*d),
{
    match d {
        Some(s) => Some(crate::text::to_string(s.as_str())),
        None => None,
    }
}

/// The Typst markup of an image: a link for a remote one, a figure for a
/// local one.
pub open spec fn image_markup(dir: Option<Seq<char>>, dest: Seq<char>) -> Seq<char> {
    if spec_is_remote_url(dest) {
        "#link(\""@ + escaped_string(dest) + "\")["@ + escaped_typst(dest) + "]"@
    } else {
        "#figure(image(\""@ + escaped_string(output_path(dir, dest)) + "\", width: 80%))"@
    }
}

/// The copies an image needs: none for a remote one.
pub open spec fn image_copy(dir: Option<Seq<char>>, dest: Seq<char>, fragment: bool) -> Seq<CopyV> {
    if spec_is_remote_url(dest) {
        seq![]
    } else {
        seq![(dest, output_path(dir, dest), fragment, dir)]
    }
}

/// Appends the markup of an image and records the copy a local image needs.
pub fn render_image(output: &mut String, copies: &mut Vec<ImageCopy>, ctx: &TypstChapter, dest_url: &str)
    ensures
        final(output)@ == old(output)@ + image_markup(opt_view(ctx.chapter_rel_dir), dest_url@),
        copies_view(final(copies)@) == copies_view(old(copies)@) + image_copy(
            opt_view(ctx.chapter_rel_dir),
            dest_url@,
            ctx.is_fragment,
        ),
{
    let ghost o = output@;
    let ghost oc = copies_view(copies@);
    if is_remote_url(dest_url) {
        push_str(output, "#link(\"");
        let e = escape_typst_string(dest_url);
        push_str(output, e.as_str());
        push_str(output, "\")[");
        let e2 = escape_typst(dest_url);
        push_str(output, e2.as_str());
        push_char(output, ']');
        proof { reveal_strlit("]"); }
        assert(output@ =~= o + image_markup(opt_view(ctx.chapter_rel_dir), dest_url@));
        assert(copies_view(copies@) =~= oc + seq![]);
        return;
    }
    let dir: Option<&str> = match &ctx.chapter_rel_dir {
        Some(d) => Some(d.as_str()),
        None => None,
    };
    let out_path = normalize_output_path(dir, dest_url);
    push_str(output, "#figure(image(\"");
    let e = escape_typst_string(out_path.as_str());
    push_str(output, e.as_str());
    push_str(output, "\", width: 80%))");
    let target = string_of(&chars_of(dest_url));
    let chapter_dir = copy_dir(&ctx.chapter_rel_dir);
    copies.push(ImageCopy { target, output_path: out_path, in_fragment: ctx.is_fragment, chapter_dir });
    assert(output@ =~= o + image_markup(opt_view(ctx.chapter_rel_dir), dest_url@));
    assert(copies_view(copies@) =~= oc + image_copy(opt_view(ctx.chapter_rel_dir), dest_url@, ctx.is_fragment));
}

/// The Typst markup of raw HTML: `<sup>`, `<sub>` and their ends, line
/// breaks, and images with a `src`; anything else is dropped.
pub open spec fn html_markup(dir: Option<Seq<char>>, html: Seq<char>) -> Seq<char> {
    let v = trim(html);
    if v == "<sup>"@ {
        "#super["@
    } else if v == "</sup>"@ {
        "]"@
    } else if v == "<sub>"@ {
        "#sub["@
    } else if v == "</sub>"@ {
        "]"@
    } else if seq_starts_with(v, "<br"@) {
        "\\\n"@
    } else if seq_starts_with(v, "<img"@) {
        match attr_value(v, "src"@) {
            Some(src) => image_markup(dir, src),
            None => seq![],
        }
    } else {
        seq![]
    }
}

/// The copies that raw HTML needs (those of an `<img>`).
pub open spec fn html_copy(dir: Option<Seq<char>>, html: Seq<char>, fragment: bool) -> Seq<CopyV> {
    let v = trim(html);
    if v != "<sup>"@ && v != "</sup>"@ && v != "<sub>"@ && v != "</sub>"@
        && !seq_starts_with(v, "<br"@) && seq_starts_with(v, "<img"@) {
        match attr_value(v, "src"@) {
            Some(src) => image_copy(dir, src, fragment),
            None => seq![],
        }
    } else {
        seq![]
    }
}

/// Appends the Typst markup of raw HTML (see `html_markup`).
pub fn render_html(output: &mut String, copies: &mut Vec<ImageCopy>, ctx: &TypstChapter, html: &str)
    ensures
        final(output)@ == old(output)@ + html_markup(opt_view(ctx.chapter_rel_dir), html@),
        copies_view(final(copies)@) == copies_view(old(copies)@) + html_copy(
            opt_view(ctx.chapter_rel_dir),
            html@,
            ctx.is_fragment,
        ),
{
    let ghost o = output@;
    let ghost oc = copies_view(copies@);
    let v = trim_chars(&chars_of(html));
    if chars_eq(&v, "<sup>") {
        push_str(output, "#super[");
    } else if chars_eq(&v, "</sup>") {
        push_str(output, "]");
    } else if chars_eq(&v, "<sub>") {
        push_str(output, "#sub[");
    } else if chars_eq(&v, "</sub>") {
        push_str(output, "]");
    } else if starts_with(&v, "<br") {
        push_str(output, "\\\n");
    } else if starts_with(&v, "<img") {
        let vs = string_of(&v);
        if let Some(src) = html_attr(vs.as_str(), "src") {
            render_image(output, copies, ctx, src.as_str());
            return;
        }
    }
    assert(output@ =~= o + html_markup(opt_view(ctx.chapter_rel_dir), html@));
    assert(copies_view(copies@) =~= oc + html_copy(opt_view(ctx.chapter_rel_dir), html@, ctx.is_fragment));
}

} // verus!
