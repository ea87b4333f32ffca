//! DOCX settings and the paragraph styles the writer uses: the defaults,
//! and the styles a template's own style table offers in their place.

use vstd::prelude::*;
use crate::text::{
    chars_of, decimal, is_whitespace, is_ws, push_char, push_decimal, push_str, string_of, to_string,
    string_views,
};

verus! {

/// Settings of the DOCX output (`[output.docx]`).
pub struct DocxConfig {
    /// A DOCX template, relative to the book's root.
    pub template: Option<String>,
    /// Whether heading levels follow mdBook's section numbers.
    pub section_number: bool,
    /// Whether chapters follow each other without a page break.
    pub chapter_no_pagebreak: bool,
    /// Whether a table of contents follows the title.
    pub toc: bool,
    /// How many heading levels the table of contents shows.
    pub toc_depth: usize,
    /// Whether code blocks are syntax highlighted.
    pub code_highlight: bool,
    /// The highlighting theme.
    pub code_theme: String,
}

impl DocxConfig {
    /// No template, no section numbers, page breaks between chapters, a
    /// table of contents three levels deep, code highlighted with the
    /// `InspiredGitHub` theme.
    pub fn default_config() -> (r: DocxConfig)
        ensures
            r.template is None,
            !r.section_number,
            !r.chapter_no_pagebreak,
            r.toc,
            r.toc_depth == 3,
            r.code_highlight,
            r.code_theme@ == "InspiredGitHub"@,
    {
        DocxConfig {
            template: None,
            section_number: false,
            chapter_no_pagebreak: false,
            toc: true,
            toc_depth: 3,
            code_highlight: true,
            code_theme: to_string("InspiredGitHub"),
        }
    }

    /// A depth of 0 in the settings means the default of 3.
    pub fn with_default_depth(self) -> (r: DocxConfig)
        ensures
            r.toc_depth == if self.toc_depth == 0 { 3 } else { self.toc_depth },
            r.template == self.template,
            r.section_number == self.section_number,
            r.chapter_no_pagebreak == self.chapter_no_pagebreak,
            r.toc == self.toc,
            r.code_highlight == self.code_highlight,
            r.code_theme == self.code_theme,
    {
        let mut cfg = self;
        if cfg.toc_depth == 0 {
            cfg.toc_depth = 3;
        }
        cfg
    }

    /// The depth of the table of contents, in `[1, 9]`.
    pub fn toc_depth(&self) -> (r: usize)
        ensures
            r == crate::heading_number::clamp(self.toc_depth as int, 1, 9),
    {
        if self.toc_depth < 1 { 1 } else if self.toc_depth > 9 { 9 } else { self.toc_depth }
    }
}

/// What kind of block a paragraph belongs to.
#[derive(Clone, Copy, Debug, PartialEq, Eq)]
pub enum ParagraphKind {
    Normal,
    Code,
    List,
    Quote,
}

/// The style ids the writer gives its paragraphs, runs and tables.
#[derive(Clone, Debug)]
pub struct DocxStyles {
    /// Heading 1 to 9.
    pub headings: Vec<String>,
    pub title: String,
    pub toc_heading: String,
    /// Table of contents levels 1 to 9.
    pub toc_entries: Vec<String>,
    pub code: String,
    pub list: String,
    pub quote: String,
    pub table: String,
    pub hyperlink: String,
}

/// `prefix` followed by the decimal `n`.
pub open spec fn numbered(prefix: Seq<char>, n: nat) -> Seq<char> {
    prefix + decimal(n)
}

impl DocxStyles {
    pub open spec fn wf(self) -> bool {
        self.headings@.len() == 9 && self.toc_entries@.len() == 9
    }

    /// The built-in styles of Word: `Heading1`..`Heading9`, `Title`,
    /// `TOCHeading`, `TOC1`..`TOC9`, `NoSpacing`, `ListParagraph`, `Quote`,
    /// `TableGrid`, `Hyperlink`.
    pub fn default_styles() -> (r: DocxStyles)
        ensures
            r.wf(),
            forall|i: int| 0 <= i < 9 ==> #[trigger] r.headings@[i]@ == numbered("Heading"@, (i + 1) as nat),
            forall|i: int| 0 <= i < 9 ==> #[trigger] r.toc_entries@[i]@ == numbered("TOC"@, (i + 1) as nat),
            r.title@ == "Title"@,
            r.toc_heading@ == "TOCHeading"@,
            r.code@ == "NoSpacing"@,
            r.list@ == "ListParagraph"@,
            r.quote@ == "Quote"@,
            r.table@ == "TableGrid"@,
            r.hyperlink@ == "Hyperlink"@,
    {
        let mut headings: Vec<String> = Vec::new();
        let mut toc_entries: Vec<String> = Vec::new();
        let mut i: u64 = 0;
        while i < 9
            invariant
                i <= 9,
                headings@.len() == i,
                toc_entries@.len() == i,
                forall|j: int| 0 <= j < i ==> #[trigger] headings@[j]@ == numbered("Heading"@, (j + 1) as nat),
                forall|j: int| 0 <= j < i ==> #[trigger] toc_entries@[j]@ == numbered("TOC"@, (j + 1) as nat),
            decreases 9 - i,
        {
            let mut h = to_string("Heading");
            push_decimal(&mut h, i + 1);
            headings.push(h);
            let mut t = to_string("TOC");
            push_decimal(&mut t, i + 1);
            toc_entries.push(t);
            i += 1;
        }
        DocxStyles {
            headings,
            title: to_string("Title"),
            toc_heading: to_string("TOCHeading"),
            toc_entries,
            code: to_string("NoSpacing"),
            list: to_string("ListParagraph"),
            quote: to_string("Quote"),
            table: to_string("TableGrid"),
            hyperlink: to_string("Hyperlink"),
        }
    }

    /// The style of a heading of `level` (clamped to `[1, 9]`).
    pub fn heading(&self, level: usize) -> (r: &str)
        requires
            self.wf(),
        ensures
            r@ == self.headings@[crate::heading_number::clamp(level as int, 1, 9) - 1]@,
    {
        let l = if level < 1 { 1 } else if level > 9 { 9 } else { level };
        self.headings[l - 1].as_str()
    }

    /// The style of a table of contents entry of `level` (clamped to `[1, 9]`).
    pub fn toc_entry(&self, level: usize) -> (r: &str)
        requires
            self.wf(),
        ensures
            r@ == self.toc_entries@[crate::heading_number::clamp(level as int, 1, 9) - 1]@,
    {
        let l = if level < 1 { 1 } else if level > 9 { 9 } else { level };
        self.toc_entries[l - 1].as_str()
    }

    /// The paragraph style of a block: code, list or quote style, none for
    /// normal text.
    pub fn block_style(&self, kind: ParagraphKind) -> (r: Option<&str>)
        ensures
            match kind {
                ParagraphKind::Code => r matches Some(s) && s@ == self.code@,
                ParagraphKind::List => r matches Some(s) && s@ == self.list@,
                ParagraphKind::Quote => r matches Some(s) && s@ == self.quote@,
                ParagraphKind::Normal => r is None,
            },
    {
        match kind {
            ParagraphKind::Code => Some(self.code.as_str()),
            ParagraphKind::List => Some(self.list.as_str()),
            ParagraphKind::Quote => Some(self.quote.as_str()),
            ParagraphKind::Normal => None,
        }
    }
}

/// The words of `s` (runs of characters between whitespace).
pub open spec fn words(s: Seq<char>) -> Seq<Seq<char>>
    decreases s.len(),
{
    if s.len() == 0 {
        seq![]
    } else if is_ws(s.last()) {
        words(s.drop_last())
    } else {
        let w = words(s.drop_last());
        if s.len() >= 2 && !is_ws(s[s.len() - 2]) && w.len() > 0 {
            w.update(w.len() - 1, w.last().push(s.last()))
        } else {
            w.push(seq![s.last()])
        }
    }
}

/// ASCII lower case of a character.
pub open spec fn ascii_lower(c: char) -> char {
    if 'A' <= c <= 'Z' { ((c as u8) + 32) as char } else { c }
}

/// A style name as the writer compares it: its words joined by single
/// spaces, in ASCII lower case.
pub open spec fn normalized_style_name(name: Seq<char>) -> Seq<char> {
    let j = crate::text::join_with(words(name), " "@);
    Seq::new(j.len(), |i: int| ascii_lower(j[i]))
}

/// `s` in ASCII lower case.
pub open spec fn lower_seq(s: Seq<char>) -> Seq<char> {
    Seq::new(s.len(), |i: int| ascii_lower(s[i]))
}

/// A tidy style name: no ASCII capital letter, no whitespace at either
/// end, and no whitespace but single spaces between words.
pub open spec fn tidy_name(s: Seq<char>) -> bool {
    &&& forall|i: int| 0 <= i < s.len() ==> !('A' <= #[trigger] s[i] <= 'Z')
    &&& s.len() > 0 ==> !is_ws(s[0]) && !is_ws(s.last())
    &&& forall|i: int| 0 <= i < s.len() && is_ws(#[trigger] s[i]) ==> s[i] == ' ' && i + 1 < s.len() && !is_ws(s[i + 1])
}

/// `s` is a word: not empty and without whitespace.
pub open spec fn is_word(s: Seq<char>) -> bool {
    s.len() > 0 && forall|m: int| 0 <= m < s.len() ==> !is_ws(#[trigger] s[m])
}

proof fn lemma_ascii_lower(c: char)
    ensures
        is_ws(ascii_lower(c)) == is_ws(c),
        !('A' <= ascii_lower(c) <= 'Z'),
        ascii_lower(ascii_lower(c)) == ascii_lower(c),
{
    if 'A' <= c <= 'Z' {
        assert((c as u8) as int == c as int);
        assert('a' <= ascii_lower(c) <= 'z');
    }
}

proof fn lemma_words_clean(s: Seq<char>)
    ensures
        forall|k: int| 0 <= k < words(s).len() ==> is_word(#[trigger] words(s)[k]),
        s.len() > 0 && !is_ws(s.last()) ==> words(s).len() > 0 && words(s).last().last() == s.last(),
    decreases s.len(),
{
    if s.len() > 0 {
        lemma_words_clean(s.drop_last());
        let w = words(s.drop_last());
        if !is_ws(s.last()) {
            if s.len() >= 2 && !is_ws(s[s.len() - 2]) && w.len() > 0 {
                let u = w.update(w.len() - 1, w.last().push(s.last()));
                assert forall|k: int| 0 <= k < u.len() implies is_word(#[trigger] u[k]) by {
                    if k == w.len() - 1 {
                        assert(is_word(w[k]));
                        assert forall|m: int| 0 <= m < u[k].len() implies !is_ws(#[trigger] u[k][m]) by {
                            if m < w[k].len() {
                                assert(u[k][m] == w[k][m]);
                            }
                        }
                    } else {
                        assert(u[k] == w[k]);
                    }
                }
            } else {
                let u = w.push(seq![s.last()]);
                assert forall|k: int| 0 <= k < u.len() implies is_word(#[trigger] u[k]) by {
                    if k < w.len() {
                        assert(u[k] == w[k]);
                    }
                }
            }
        }
    }
}

proof fn lemma_words_word(x: Seq<char>, w: Seq<char>)
    requires
        x.len() == 0 || is_ws(x.last()),
        is_word(w),
    ensures
        words(x + w) == words(x).push(w),
    decreases w.len(),
{
    let s = x + w;
    assert(s.drop_last() =~= x + w.drop_last());
    assert(s.last() == w.last());
    if w.len() == 1 {
        assert(x + w.drop_last() =~= x);
        assert(w =~= seq![w.last()]);
        if s.len() >= 2 {
            assert(s[s.len() - 2] == x.last());
        }
    } else {
        let v = w.drop_last();
        assert(is_word(v)) by {
            assert forall|m: int| 0 <= m < v.len() implies !is_ws(#[trigger] v[m]) by {
                assert(v[m] == w[m]);
            }
        }
        lemma_words_word(x, v);
        assert(s[s.len() - 2] == w[w.len() - 2]);
        assert(!is_ws(w[w.len() - 2]));
        assert(v.push(w.last()) =~= w);
        assert(words(x).push(v).update(words(x).len() as int, v.push(w.last())) =~= words(x).push(w));
    }
}

proof fn lemma_words_join(ws: Seq<Seq<char>>)
    requires
        forall|k: int| 0 <= k < ws.len() ==> is_word(#[trigger] ws[k]),
    ensures
        words(crate::text::join_with(ws, " "@)) == ws,
        crate::text::join_with(ws, " "@).len() > 0 <==> ws.len() > 0,
        ws.len() > 0 ==> crate::text::join_with(ws, " "@).last() == ws.last().last(),
    decreases ws.len(),
{
    reveal_strlit(" ");
    if ws.len() == 0 {
    } else if ws.len() == 1 {
        assert(is_word(ws[0]));
        let e: Seq<char> = seq![];
        assert(e + ws[0] =~= ws[0]);
        lemma_words_word(e, ws[0]);
        assert(words(e) =~= Seq::<Seq<char>>::empty());
        assert(Seq::<Seq<char>>::empty().push(ws[0]) =~= ws);
    } else {
        let a = crate::text::join_with(ws.drop_last(), " "@);
        lemma_words_join(ws.drop_last());
        let a1 = a + " "@;
        assert(a1.drop_last() =~= a);
        assert(is_word(ws.last()));
        lemma_words_word(a1, ws.last());
        assert(ws.drop_last().push(ws.last()) =~= ws);
        assert((a + " "@ + ws.last()).last() == ws.last().last());
    }
}

proof fn lemma_lower_join(ws: Seq<Seq<char>>)
    ensures
        lower_seq(crate::text::join_with(ws, " "@))
            == crate::text::join_with(Seq::new(ws.len(), |k: int| lower_seq(ws[k])), " "@),
    decreases ws.len(),
{
    reveal_strlit(" ");
    let lw = Seq::new(ws.len(), |k: int| lower_seq(ws[k]));
    if ws.len() == 0 {
        assert(lower_seq(seq![]) =~= Seq::<char>::empty());
    } else if ws.len() == 1 {
    } else {
        lemma_lower_join(ws.drop_last());
        assert(Seq::new(ws.drop_last().len(), |k: int| lower_seq(ws.drop_last()[k])) =~= lw.drop_last());
        let a = crate::text::join_with(ws.drop_last(), " "@);
        assert(lower_seq(a + " "@ + ws.last()) =~= lower_seq(a) + " "@ + lower_seq(ws.last()));
    }
}

proof fn lemma_join_tidy(ws: Seq<Seq<char>>)
    requires
        forall|k: int| 0 <= k < ws.len() ==> is_word(#[trigger] ws[k]),
    ensures
        ({
            let j = crate::text::join_with(ws, " "@);
            &&& j.len() > 0 ==> !is_ws(j[0]) && !is_ws(j.last())
            &&& forall|i: int| 0 <= i < j.len() && is_ws(#[trigger] j[i]) ==> j[i] == ' ' && i + 1 < j.len() && !is_ws(j[i + 1])
        }),
    decreases ws.len(),
{
    reveal_strlit(" ");
    let j = crate::text::join_with(ws, " "@);
    if ws.len() == 1 {
        assert(is_word(ws[0]));
    } else if ws.len() > 1 {
        let a = crate::text::join_with(ws.drop_last(), " "@);
        lemma_join_tidy(ws.drop_last());
        lemma_words_join(ws.drop_last());
        let w = ws.last();
        assert(is_word(w));
        assert(j =~= a + " "@ + w);
        assert forall|i: int| 0 <= i < j.len() && is_ws(#[trigger] j[i]) implies j[i] == ' ' && i + 1 < j.len() && !is_ws(j[i + 1]) by {
            if i < a.len() {
                assert(j[i] == a[i]);
                if i + 1 < a.len() {
                    assert(j[i + 1] == a[i + 1]);
                }
            } else if i == a.len() {
                assert(j[i + 1] == w[0]);
            } else {
                assert(j[i] == w[i - a.len() - 1]);
            }
        }
        assert(j[0] == a[0]);
    }
}

/// A normalised style name is tidy (no ASCII capitals, no stray
/// whitespace), and normalising it again changes nothing.
pub proof fn lemma_normalized_style_name(name: Seq<char>)
    ensures
        tidy_name(normalized_style_name(name)),
        normalized_style_name(normalized_style_name(name)) == normalized_style_name(name),
{
    let w = words(name);
    lemma_words_clean(name);
    let j = crate::text::join_with(w, " "@);
    let n = normalized_style_name(name);
    assert(n == lower_seq(j));
    lemma_lower_join(w);
    let lw = Seq::new(w.len(), |k: int| lower_seq(w[k]));
    assert forall|k: int| 0 <= k < lw.len() implies is_word(#[trigger] lw[k]) by {
        assert(is_word(w[k]));
        assert forall|m: int| 0 <= m < lw[k].len() implies !is_ws(#[trigger] lw[k][m]) by {
            lemma_ascii_lower(w[k][m]);
        }
    }
    lemma_words_join(lw);
    lemma_join_tidy(lw);
    assert(words(n) == lw);
    assert(normalized_style_name(n) == lower_seq(n));
    assert forall|i: int| 0 <= i < n.len() implies !('A' <= #[trigger] n[i] <= 'Z') && lower_seq(n)[i] == n[i] by {
        lemma_ascii_lower(j[i]);
    }
    assert(lower_seq(n) =~= n);
}

/// A style name as the writer compares it (see `normalized_style_name`).
pub fn normalize_style_name(name: &str) -> (r: String)
    ensures
        r@ == normalized_style_name(name@),
{
    let s = chars_of(name);
    let mut joined: Vec<char> = Vec::new();
    let mut i: usize = 0;
    let ghost mut ws: Seq<Seq<char>> = seq![];
    while i < s.len()
        invariant
            i <= s.len(),
            ws == words(s@.take(i as int)),
            joined@ == crate::text::join_with(ws, " "@),
            i > 0 && !is_ws(s@[i - 1]) ==> ws.len() > 0,
            forall|k: int| 0 <= k < ws.len() ==> #[trigger] ws[k].len() > 0,
            (joined@.len() == 0) == (ws.len() == 0),
        decreases s.len() - i,
    {
        let c = s[i];
        let ghost t = s@.take(i + 1);
        proof {
            assert(t.drop_last() =~= s@.take(i as int));
            assert(t.last() == c);
            reveal_strlit(" ");
        }
        if is_whitespace(c) {
            proof { ws = words(t); }
        } else if i > 0 && !is_whitespace(s[i - 1]) {
            joined.push(c);
            proof {
                let w = ws;
                assert(t[t.len() - 2] == s@[i - 1]);
                let nw = w.update(w.len() - 1, w.last().push(c));
                assert(nw.drop_last() =~= w.drop_last());
                if w.len() > 1 {
                    assert(crate::text::join_with(nw, " "@) =~= crate::text::join_with(w, " "@).push(c));
                } else {
                    assert(crate::text::join_with(nw, " "@) =~= crate::text::join_with(w, " "@).push(c));
                }
                ws = nw;
            }
        } else {
            if joined.len() > 0 {
                joined.push(' ');
            }
            joined.push(c);
            proof {
                let w = ws;
                let nw = w.push(seq![c]);
                assert(nw.drop_last() =~= w);
                assert(crate::text::join_with(nw, " "@) =~= joined@);
                ws = nw;
            }
        }
        i += 1;
    }
    assert(s@.take(s.len() as int) =~= s@);
    let mut out: Vec<char> = Vec::new();
    let mut k: usize = 0;
    while k < joined.len()
        invariant
            k <= joined.len(),
            out@ =~= Seq::new(k as nat, |j: int| ascii_lower(joined@[j])),
        decreases joined.len() - k,
    {
        let c = joined[k];
        out.push(if 'A' <= c && c <= 'Z' { ((c as u8) + 32) as char } else { c });
        k += 1;
    }
    string_of(&out)
}


/// A style of a DOCX template, as far as the writer reads it.
pub struct TemplateStyle {
    pub style_id: Option<String>,
    pub name: Option<String>,
    /// Whether it is a paragraph style.
    pub is_paragraph: bool,
    /// The outline level of a paragraph style (0 for headings of level 1).
    pub outline_level: Option<i32>,
}

/// The id of the last style with an id whose normalised name is `key`.
pub open spec fn lookup_name(styles: Seq<TemplateStyle>, key: Seq<char>) -> Option<Seq<char>>
    decreases styles.len(),
{
    if styles.len() == 0 {
        None
    } else {
        let s = styles.last();
        match (s.style_id, s.name) {
            (Some(id), Some(n)) => if normalized_style_name(n@) == key {
                Some(id@)
            } else {
                lookup_name(styles.drop_last(), key)
            },
            _ => lookup_name(styles.drop_last(), key),
        }
    }
}

/// The id of the first paragraph style with an id at outline level `level`.
pub open spec fn lookup_outline(styles: Seq<TemplateStyle>, level: i32) -> Option<Seq<char>>
    decreases styles.len(),
{
    if styles.len() == 0 {
        None
    } else {
        match lookup_outline(styles.drop_last(), level) {
            Some(x) => Some(x),
            None => {
                let s = styles.last();
                match s.style_id {
                    Some(id) => if s.is_paragraph && s.outline_level == Some(level) { Some(id@) } else { None },
                    None => None,
                }
            },
        }
    }
}

/// The first of two lookups that finds something.
pub open spec fn or_else(a: Option<Seq<char>>, b: Option<Seq<char>>) -> Option<Seq<char>> {
    match a {
        Some(x) => Some(x),
        None => b,
    }
}

/// What a lookup finds, or the default.
pub open spec fn found_or(a: Option<Seq<char>>, default: Seq<char>) -> Seq<char> {
    match a {
        Some(x) => x,
        None => default,
    }
}

/// The style for headings of `level`: named `heading N`, or else the first
/// paragraph style at outline level `N - 1`.
pub open spec fn template_heading(styles: Seq<TemplateStyle>, level: nat) -> Option<Seq<char>> {
    or_else(lookup_name(styles, "heading "@ + decimal(level)), lookup_outline(styles, (level - 1) as i32))
}

/// The code style: `无间隔1` or `无间隔`, or else `no spacing` or `nospacing`.
pub open spec fn template_code(styles: Seq<TemplateStyle>) -> Option<Seq<char>> {
    or_else(
        or_else(lookup_name(styles, "无间隔1"@), lookup_name(styles, "无间隔"@)),
        or_else(lookup_name(styles, "no spacing"@), lookup_name(styles, "nospacing"@)),
    )
}

fn find_by_name(styles: &[TemplateStyle], key: &str) -> (r: Option<String>)
    ensures
        crate::typst::opt_view(r) == lookup_name(styles@, key@),
{
    let mut i = styles.len();
    assert(styles@.take(styles@.len() as int) =~= styles@);
    while i > 0
        invariant
            i <= styles.len(),
            lookup_name(styles@, key@) == lookup_name(styles@.take(i as int), key@),
        decreases i,
    {
        let s = &styles[i - 1];
        let ghost t = styles@.take(i as int);
        assert(t.drop_last() =~= styles@.take(i - 1));
        assert(t.last() == styles@[i - 1]);
        match (&s.style_id, &s.name) {
            (Some(id), Some(n)) => {
                let nn = normalize_style_name(n.as_str());
                if crate::text::chars_eq(&chars_of(nn.as_str()), key) {
                    return Some(id.clone());
                }
            },
            _ => {},
        }
        i -= 1;
    }
    None
}

fn find_by_outline(styles: &[TemplateStyle], level: i32) -> (r: Option<String>)
    ensures
        crate::typst::opt_view(r) == lookup_outline(styles@, level),
{
    let mut i: usize = 0;
    while i < styles.len()
        invariant
            i <= styles.len(),
            lookup_outline(styles@.take(i as int), level) is None,
        decreases styles.len() - i,
    {
        let ghost t = styles@.take(i + 1);
        assert(t.drop_last() =~= styles@.take(i as int));
        assert(t.last() == styles@[i as int]);
        let s = &styles[i];
        if let Some(id) = &s.style_id {
            if s.is_paragraph {
                if let Some(l) = s.outline_level {
                    if l == level {
                        proof { lemma_outline_prefix(styles@, level, i + 1); }
                        return Some(id.clone());
                    }
                }
            }
        }
        i += 1;
    }
    assert(styles@.take(styles@.len() as int) =~= styles@);
    None
}

proof fn lemma_outline_prefix(styles: Seq<TemplateStyle>, level: i32, k: int)
    requires
        0 <= k <= styles.len(),
        lookup_outline(styles.take(k), level) is Some,
    ensures
        lookup_outline(styles, level) == lookup_outline(styles.take(k), level),
    decreases styles.len() - k,
{
    if k < styles.len() {
        let t = styles.take(k + 1);
        assert(t.drop_last() =~= styles.take(k));
        lemma_outline_prefix(styles, level, k + 1);
    } else {
        assert(styles.take(k) =~= styles);
    }
}

fn find_either(styles: &[TemplateStyle], a: &str, b: &str) -> (r: Option<String>)
    ensures
        crate::typst::opt_view(r) == or_else(lookup_name(styles@, a@), lookup_name(styles@, b@)),
{
    match find_by_name(styles, a) {
        Some(x) => Some(x),
        None => find_by_name(styles, b),
    }
}

fn pick(found: Option<String>, default: String) -> (r: String)
    ensures
        r@ == found_or(crate::typst::opt_view(found), default@),
{
    match found {
        Some(x) => x,
        None => default,
    }
}

/// The styles of a template in place of the defaults: headings by name
/// (`heading N`) or outline level, table of contents levels (`toc N`),
/// title, table of contents heading, list paragraph, quote, code (`no
/// spacing` or its Chinese name), table (`normal table` or `table grid`)
/// and hyperlink, each where the template has it.
pub fn resolve_docx_styles(styles: &[TemplateStyle]) -> (r: DocxStyles)
    ensures
        r.wf(),
        forall|i: int| 0 <= i < 9 ==> #[trigger] r.headings@[i]@ == found_or(
            template_heading(styles@, (i + 1) as nat),
            numbered("Heading"@, (i + 1) as nat),
        ),
        forall|i: int| 0 <= i < 9 ==> #[trigger] r.toc_entries@[i]@ == found_or(
            lookup_name(styles@, "toc "@ + decimal((i + 1) as nat)),
            numbered("TOC"@, (i + 1) as nat),
        ),
        r.title@ == found_or(lookup_name(styles@, "title"@), "Title"@),
        r.toc_heading@ == found_or(lookup_name(styles@, "toc heading"@), "TOCHeading"@),
        r.list@ == found_or(lookup_name(styles@, "list paragraph"@), "ListParagraph"@),
        r.quote@ == found_or(lookup_name(styles@, "quote"@), "Quote"@),
        r.code@ == found_or(template_code(styles@), "NoSpacing"@),
        r.table@ == found_or(
            or_else(lookup_name(styles@, "normal table"@), lookup_name(styles@, "table grid"@)),
            "TableGrid"@,
        ),
        r.hyperlink@ == found_or(lookup_name(styles@, "hyperlink"@), "Hyperlink"@),
{
    let mut headings: Vec<String> = Vec::new();
    let mut toc_entries: Vec<String> = Vec::new();
    let mut level: u64 = 1;
    while level <= 9
        invariant
            1 <= level <= 10,
            headings@.len() == level - 1,
            toc_entries@.len() == level - 1,
            forall|i: int| 0 <= i < level - 1 ==> #[trigger] headings@[i]@ == found_or(
                template_heading(styles@, (i + 1) as nat),
                numbered("Heading"@, (i + 1) as nat),
            ),
            forall|i: int| 0 <= i < level - 1 ==> #[trigger] toc_entries@[i]@ == found_or(
                lookup_name(styles@, "toc "@ + decimal((i + 1) as nat)),
                numbered("TOC"@, (i + 1) as nat),
            ),
        decreases 10 - level,
    {
        let mut key = to_string("heading ");
        push_decimal(&mut key, level);
        let by_name = find_by_name(styles, key.as_str());
        let found = match by_name {
            Some(x) => Some(x),
            None => find_by_outline(styles, (level - 1) as i32),
        };
        let mut default = to_string("Heading");
        push_decimal(&mut default, level);
        headings.push(pick(found, default));
        let mut tkey = to_string("toc ");
        push_decimal(&mut tkey, level);
        let mut tdefault = to_string("TOC");
        push_decimal(&mut tdefault, level);
        toc_entries.push(pick(find_by_name(styles, tkey.as_str()), tdefault));
        level += 1;
    }
    let code = match find_either(styles, "无间隔1", "无间隔") {
        Some(x) => Some(x),
        None => find_either(styles, "no spacing", "nospacing"),
    };
    DocxStyles {
        headings,
        title: pick(find_by_name(styles, "title"), to_string("Title")),
        toc_heading: pick(find_by_name(styles, "toc heading"), to_string("TOCHeading")),
        toc_entries,
        code: pick(code, to_string("NoSpacing")),
        list: pick(find_by_name(styles, "list paragraph"), to_string("ListParagraph")),
        quote: pick(find_by_name(styles, "quote"), to_string("Quote")),
        table: pick(find_either(styles, "normal table", "table grid"), to_string("TableGrid")),
        hyperlink: pick(find_by_name(styles, "hyperlink"), to_string("Hyperlink")),
    }
}

} // verus!
