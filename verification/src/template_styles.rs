//! The renderkit styles that a legacy Word template is given: which of the
//! template's own styles each one is copied from, and how each is then
//! formatted.

use vstd::prelude::*;
use crate::docx_style::{normalize_style_name, normalized_style_name};
use crate::text::{chars_of, decimal, push_decimal, push_str, seq_starts_with, starts_with, string_views, to_string};

verus! {

/// The type of a Word style.
#[derive(Clone, Copy, Debug, PartialEq, Eq, Structural)]
pub enum StyleKind {
    Paragraph,
    Character,
    Table,
    Numbering,
}

/// A renderkit style to add: its id and type, the ids and names of the
/// template styles it may be copied from (in order of preference), and the
/// styles that follow it and that it is based on.
#[derive(Clone, Debug)]
pub struct StyleSpec {
    pub id: String,
    pub kind: StyleKind,
    pub source_ids: Vec<String>,
    pub source_names: Vec<String>,
    pub next_style: Option<String>,
    pub based_on: Option<String>,
}

pub struct StyleSpecV {
    pub id: Seq<char>,
    pub kind: StyleKind,
    pub source_ids: Seq<Seq<char>>,
    pub source_names: Seq<Seq<char>>,
    pub next_style: Option<Seq<char>>,
    pub based_on: Option<Seq<char>>,
}

impl View for StyleSpec {
    type V = StyleSpecV;

    open spec fn view(&self) -> StyleSpecV {
        StyleSpecV {
            id: self.id@,
            kind: self.kind,
            source_ids: string_views(self.source_ids@),
            source_names: string_views(self.source_names@),
            next_style: crate::docx_model::opt_seq(self.next_style),
            based_on: crate::docx_model::opt_seq(self.based_on),
        }
    }
}

pub open spec fn specs_view(v: Seq<StyleSpec>) -> Seq<StyleSpecV> {
    Seq::new(v.len(), |i: int| v[i]@)
}

/// The strings of `values`, owned.
pub fn strings(values: &[&str]) -> (r: Vec<String>)
    ensures
        string_views(r@) == Seq::new(values@.len(), |i: int| values@[i]@),
{
    let mut r: Vec<String> = Vec::new();
    let mut i: usize = 0;
    while i < values.len()
        invariant
            i <= values.len(),
            string_views(r@) =~= Seq::new(i as nat, |k: int| values@[k]@),
        decreases values.len() - i,
    {
        let s = to_string(values[i]);
        let ghost before = r@;
        r.push(s);
        assert(string_views(r@) =~= string_views(before).push(s@));
        i += 1;
    }
    r
}

/// The id of the legacy table of contents style a level is copied from.
pub open spec fn toc_source(level: int) -> Seq<char> {
    if level == 1 { "16"@ } else if level == 2 { "18"@ } else { "13"@ }
}

/// The id of the legacy table of contents style a level is copied from
/// (see `toc_source`).
pub fn toc_source_id(level: usize) -> (r: &'static str)
    ensures
        r@ == toc_source(level as int),
{
    if level == 1 {
        "16"
    } else if level == 2 {
        "18"
    } else {
        "13"
    }
}

pub open spec fn spec_v(
    id: Seq<char>,
    kind: StyleKind,
    ids: Seq<Seq<char>>,
    names: Seq<Seq<char>>,
    next: Option<Seq<char>>,
    based_on: Option<Seq<char>>,
) -> StyleSpecV {
    StyleSpecV { id, kind, source_ids: ids, source_names: names, next_style: next, based_on }
}

/// The fixed renderkit styles.
pub open spec fn fixed_specs() -> Seq<StyleSpecV> {
    seq![
        spec_v("RenderkitTitle"@, StyleKind::Paragraph, seq!["20"@, "Title"@], seq!["Title"@], Some("RenderkitBody"@), None),
        spec_v("RenderkitBody"@, StyleKind::Paragraph, seq!["59"@, "BodyText"@, "Normal"@], seq!["Body Text"@, "Normal"@], Some("RenderkitBody"@), None),
        spec_v("RenderkitTocHeading"@, StyleKind::Paragraph, seq!["52"@, "TOCHeading"@], seq!["TOC Heading"@], Some("RenderkitBody"@), None),
        spec_v("RenderkitCode"@, StyleKind::Paragraph, seq!["61"@, "NoSpacing"@], seq!["无间隔1"@, "无间隔"@, "No Spacing"@], Some("RenderkitBody"@), None),
        spec_v("RenderkitInlineCode"@, StyleKind::Character, seq!["24"@, "Hyperlink"@], seq!["Hyperlink"@], None, None),
        spec_v("RenderkitImage"@, StyleKind::Paragraph, seq!["59"@, "BodyText"@, "Normal"@], seq!["Body Text"@, "Normal"@], Some("RenderkitBody"@), None),
        spec_v("RenderkitList"@, StyleKind::Paragraph, seq!["55"@, "ListParagraph"@], seq!["List Paragraph"@], Some("RenderkitList"@), Some("RenderkitBody"@)),
        spec_v("RenderkitQuote"@, StyleKind::Paragraph, seq!["Quote"@, "59"@, "BodyText"@], seq!["Quote"@, "Body Text"@], Some("RenderkitBody"@), Some("RenderkitBody"@)),
        spec_v("RenderkitTable"@, StyleKind::Table, seq!["22"@, "TableGrid"@, "21"@, "34"@], seq!["Table Grid"@, "Normal Table"@, "BlackHeader"@], None, None),
        spec_v("RenderkitHyperlink"@, StyleKind::Character, seq!["24"@, "Hyperlink"@], seq!["Hyperlink"@], None, None),
    ]
}

/// The heading style of `level`, copied from the template's heading style.
pub open spec fn heading_spec(level: nat) -> StyleSpecV {
    spec_v(
        "RenderkitHeading"@ + decimal(level),
        StyleKind::Paragraph,
        seq![decimal(level + 1), "Heading"@ + decimal(level)],
        seq!["heading "@ + decimal(level)],
        Some("RenderkitBody"@),
        None,
    )
}

/// The table of contents style of `level`.
pub open spec fn toc_spec(level: nat) -> StyleSpecV {
    spec_v(
        "RenderkitToc"@ + decimal(level),
        StyleKind::Paragraph,
        seq![toc_source(level as int), "TOC"@ + decimal(level)],
        seq!["toc "@ + decimal(if level < 3 { level } else { 3 })],
        Some("RenderkitBody"@),
        None,
    )
}

/// All renderkit styles: the fixed ones, then a heading and a table of
/// contents style for each level from 1 to 9.
pub open spec fn renderkit_specs() -> Seq<StyleSpecV> {
    fixed_specs() + Seq::new(18, |i: int| if i % 2 == 0 { heading_spec((i / 2 + 1) as nat) } else { toc_spec((i / 2 + 1) as nat) })
}

fn spec_of(id: &str, kind: StyleKind, ids: Vec<String>, names: Vec<String>, next: Option<&str>, based_on: Option<&str>) -> (r: StyleSpec)
    ensures
        r@ == spec_v(
            id@,
            kind,
            string_views(ids@),
            string_views(names@),
            match next { Some(n) => Some(n@), None => None },
            match based_on { Some(b) => Some(b@), None => None },
        ),
{
    StyleSpec {
        id: to_string(id),
        kind,
        source_ids: ids,
        source_names: names,
        next_style: match next {
            Some(n) => Some(to_string(n)),
            None => None,
        },
        based_on: match based_on {
            Some(b) => Some(to_string(b)),
            None => None,
        },
    }
}

fn sv1(a: &str) -> (r: Vec<String>)
    ensures
        string_views(r@) == seq![a@],
{
    let r = vec![to_string(a)];
    assert(string_views(r@) =~= seq![a@]);
    r
}

fn sv2(a: &str, b: &str) -> (r: Vec<String>)
    ensures
        string_views(r@) == seq![a@, b@],
{
    let r = vec![to_string(a), to_string(b)];
    assert(string_views(r@) =~= seq![a@, b@]);
    r
}

fn sv3(a: &str, b: &str, c: &str) -> (r: Vec<String>)
    ensures
        string_views(r@) == seq![a@, b@, c@],
{
    let r = vec![to_string(a), to_string(b), to_string(c)];
    assert(string_views(r@) =~= seq![a@, b@, c@]);
    r
}

fn sv4(a: &str, b: &str, c: &str, d: &str) -> (r: Vec<String>)
    ensures
        string_views(r@) == seq![a@, b@, c@, d@],
{
    let r = vec![to_string(a), to_string(b), to_string(c), to_string(d)];
    assert(string_views(r@) =~= seq![a@, b@, c@, d@]);
    r
}

fn prefixed(prefix: &str, n: usize) -> (r: String)
    ensures
        r@ == prefix@ + decimal(n as nat),
{
    let mut s = to_string(prefix);
    push_decimal(&mut s, n as u64);
    s
}

fn level_specs(level: usize) -> (r: (StyleSpec, StyleSpec))
    requires
        1 <= level <= 9,
    ensures
        r.0@ == heading_spec(level as nat),
        r.1@ == toc_spec(level as nat),
{
    let mut hid = String::new();
    push_decimal(&mut hid, (level + 1) as u64);
    let heading = StyleSpec {
        id: prefixed("RenderkitHeading", level),
        kind: StyleKind::Paragraph,
        source_ids: vec![hid, prefixed("Heading", level)],
        source_names: vec![prefixed("heading ", level)],
        next_style: Some(to_string("RenderkitBody")),
        based_on: None,
    };
    assert(string_views(heading.source_ids@) =~= seq![decimal((level + 1) as nat), "Heading"@ + decimal(level as nat)]);
    assert(string_views(heading.source_names@) =~= seq!["heading "@ + decimal(level as nat)]);
    let shown = if level < 3 { level } else { 3 };
    let toc = StyleSpec {
        id: prefixed("RenderkitToc", level),
        kind: StyleKind::Paragraph,
        source_ids: vec![to_string(toc_source_id(level)), prefixed("TOC", level)],
        source_names: vec![prefixed("toc ", shown)],
        next_style: Some(to_string("RenderkitBody")),
        based_on: None,
    };
    assert(string_views(toc.source_ids@) =~= seq![toc_source(level as int), "TOC"@ + decimal(level as nat)]);
    assert(string_views(toc.source_names@) =~= seq!["toc "@ + decimal(shown as nat)]);
    (heading, toc)
}

/// All renderkit styles (see `renderkit_specs`).
pub fn renderkit_style_specs() -> (r: Vec<StyleSpec>)
    ensures
        specs_view(r@) == renderkit_specs(),
{
    let mut specs: Vec<StyleSpec> = Vec::new();
    specs.push(spec_of("RenderkitTitle", StyleKind::Paragraph, sv2("20", "Title"), sv1("Title"), Some("RenderkitBody"), None));
    specs.push(spec_of("RenderkitBody", StyleKind::Paragraph, sv3("59", "BodyText", "Normal"), sv2("Body Text", "Normal"), Some("RenderkitBody"), None));
    specs.push(spec_of("RenderkitTocHeading", StyleKind::Paragraph, sv2("52", "TOCHeading"), sv1("TOC Heading"), Some("RenderkitBody"), None));
    specs.push(spec_of("RenderkitCode", StyleKind::Paragraph, sv2("61", "NoSpacing"), sv3("无间隔1", "无间隔", "No Spacing"), Some("RenderkitBody"), None));
    specs.push(spec_of("RenderkitInlineCode", StyleKind::Character, sv2("24", "Hyperlink"), sv1("Hyperlink"), None, None));
    specs.push(spec_of("RenderkitImage", StyleKind::Paragraph, sv3("59", "BodyText", "Normal"), sv2("Body Text", "Normal"), Some("RenderkitBody"), None));
    specs.push(spec_of("RenderkitList", StyleKind::Paragraph, sv2("55", "ListParagraph"), sv1("List Paragraph"), Some("RenderkitList"), Some("RenderkitBody")));
    specs.push(spec_of("RenderkitQuote", StyleKind::Paragraph, sv3("Quote", "59", "BodyText"), sv2("Quote", "Body Text"), Some("RenderkitBody"), Some("RenderkitBody")));
    specs.push(spec_of("RenderkitTable", StyleKind::Table, sv4("22", "TableGrid", "21", "34"), sv3("Table Grid", "Normal Table", "BlackHeader"), None, None));
    specs.push(spec_of("RenderkitHyperlink", StyleKind::Character, sv2("24", "Hyperlink"), sv1("Hyperlink"), None, None));
    assert(specs_view(specs@) =~= fixed_specs());
    let mut level: usize = 1;
    while level <= 9
        invariant
            1 <= level <= 10,
            specs_view(specs@) =~= renderkit_specs().take(10 + 2 * (level - 1)),
        decreases 10 - level,
    {
        let (h, t) = level_specs(level);
        let ghost before = specs@;
        specs.push(h);
        specs.push(t);
        assert(specs_view(specs@) =~= specs_view(before).push(h@).push(t@));
        assert(renderkit_specs().take(10 + 2 * level) =~= renderkit_specs().take(10 + 2 * (level - 1)).push(heading_spec(level as nat)).push(toc_spec(level as nat))) by {
            let j = 2 * (level - 1) as int;
            assert(j % 2 == 0 && (j / 2 + 1) == level);
            assert((j + 1) % 2 == 1 && ((j + 1) / 2 + 1) == level);
        }
        level += 1;
    }
    assert(renderkit_specs().take(28) =~= renderkit_specs());
    specs
}


/// A style of the template, as the renderkit styles are chosen from it:
/// its id, name and type, where it has them.
#[derive(Clone, Debug)]
pub struct SourceStyle {
    pub id: Option<String>,
    pub name: Option<String>,
    pub kind: Option<StyleKind>,
}

pub struct SourceStyleV {
    pub id: Option<Seq<char>>,
    pub name: Option<Seq<char>>,
    pub kind: Option<StyleKind>,
}

impl View for SourceStyle {
    type V = SourceStyleV;

    open spec fn view(&self) -> SourceStyleV {
        SourceStyleV {
            id: crate::docx_model::opt_seq(self.id),
            name: crate::docx_model::opt_seq(self.name),
            kind: self.kind,
        }
    }
}

pub open spec fn sources_view(v: Seq<SourceStyle>) -> Seq<SourceStyleV> {
    Seq::new(v.len(), |i: int| v[i]@)
}

/// The last style with id `id` (a later style with the same id replaces an
/// earlier one).
pub open spec fn last_by_id(styles: Seq<SourceStyleV>, id: Seq<char>) -> Option<int>
    decreases styles.len(),
{
    if styles.len() == 0 {
        None
    } else if styles.last().id == Some(id) {
        Some(styles.len() - 1)
    } else {
        last_by_id(styles.drop_last(), id)
    }
}

/// The last style whose normalised name is `key`.
pub open spec fn last_by_name(styles: Seq<SourceStyleV>, key: Seq<char>) -> Option<int>
    decreases styles.len(),
{
    if styles.len() == 0 {
        None
    } else if (styles.last().name matches Some(n) && normalized_style_name(n) == key) {
        Some(styles.len() - 1)
    } else {
        last_by_name(styles.drop_last(), key)
    }
}

/// The style found for the first of `ids` that names a style of `kind`.
pub open spec fn first_by_ids(styles: Seq<SourceStyleV>, ids: Seq<Seq<char>>, kind: StyleKind) -> Option<int>
    decreases ids.len(),
{
    if ids.len() == 0 {
        None
    } else {
        match last_by_id(styles, ids[0]) {
            Some(j) if styles[j].kind == Some(kind) => Some(j),
            _ => first_by_ids(styles, ids.subrange(1, ids.len() as int), kind),
        }
    }
}

/// The style found for the first of `names` that names a style of `kind`.
pub open spec fn first_by_names(styles: Seq<SourceStyleV>, names: Seq<Seq<char>>, kind: StyleKind) -> Option<int>
    decreases names.len(),
{
    if names.len() == 0 {
        None
    } else {
        match last_by_name(styles, normalized_style_name(names[0])) {
            Some(j) if styles[j].kind == Some(kind) => Some(j),
            _ => first_by_names(styles, names.subrange(1, names.len() as int), kind),
        }
    }
}

/// The template style a renderkit style is copied from: by id first, then
/// by name, of the same type.
pub open spec fn find_source(styles: Seq<SourceStyleV>, ids: Seq<Seq<char>>, names: Seq<Seq<char>>, kind: StyleKind) -> Option<int> {
    match first_by_ids(styles, ids, kind) {
        Some(j) => Some(j),
        None => first_by_names(styles, names, kind),
    }
}

/// The source of a spec, falling back to the template's `Normal` style.
pub open spec fn source_of(styles: Seq<SourceStyleV>, spec: StyleSpecV) -> Option<int> {
    match find_source(styles, spec.source_ids, spec.source_names, spec.kind) {
        Some(j) => Some(j),
        None => find_source(styles, seq!["Normal"@], seq!["Normal"@], spec.kind),
    }
}

fn last_by_id_exec(styles: &Vec<SourceStyle>, id: &String) -> (r: Option<usize>)
    ensures
        match r {
            Some(j) => last_by_id(sources_view(styles@), id@) == Some(j as int) && j < styles@.len(),
            None => last_by_id(sources_view(styles@), id@) is None,
        },
{
    let ghost sv = sources_view(styles@);
    let mut k: usize = styles.len();
    assert(sv.take(styles.len() as int) =~= sv);
    while k > 0
        invariant
            k <= styles.len(),
            sv == sources_view(styles@),
            last_by_id(sv, id@) == last_by_id(sv.take(k as int), id@),
        decreases k,
    {
        let ghost t = sv.take(k as int);
        assert(t.drop_last() =~= sv.take(k - 1));
        assert(t.last() == styles@[k - 1]@);
        let hit = match &styles[k - 1].id {
            Some(s) => *s == *id,
            None => false,
        };
        if hit {
            return Some(k - 1);
        }
        k -= 1;
    }
    assert(sv.take(0) =~= Seq::<SourceStyleV>::empty());
    None
}

fn last_by_name_exec(styles: &Vec<SourceStyle>, key: &String) -> (r: Option<usize>)
    ensures
        match r {
            Some(j) => last_by_name(sources_view(styles@), key@) == Some(j as int) && j < styles@.len(),
            None => last_by_name(sources_view(styles@), key@) is None,
        },
{
    let ghost sv = sources_view(styles@);
    let mut k: usize = styles.len();
    assert(sv.take(styles.len() as int) =~= sv);
    while k > 0
        invariant
            k <= styles.len(),
            sv == sources_view(styles@),
            last_by_name(sv, key@) == last_by_name(sv.take(k as int), key@),
        decreases k,
    {
        let ghost t = sv.take(k as int);
        assert(t.drop_last() =~= sv.take(k - 1));
        assert(t.last() == styles@[k - 1]@);
        let hit = match &styles[k - 1].name {
            Some(n) => normalize_style_name(n.as_str()) == *key,
            None => false,
        };
        if hit {
            return Some(k - 1);
        }
        k -= 1;
    }
    assert(sv.take(0) =~= Seq::<SourceStyleV>::empty());
    None
}

fn kind_is(k: Option<StyleKind>, kind: StyleKind) -> (b: bool)
    ensures
        b == (k == Some(kind)),
{
    match k {
        Some(x) => x == kind,
        None => false,
    }
}

/// The style found for the first of `ids` (see `first_by_ids`).
fn first_by_ids_exec(styles: &Vec<SourceStyle>, ids: &Vec<String>, kind: StyleKind) -> (r: Option<usize>)
    ensures
        match r {
            Some(j) => first_by_ids(sources_view(styles@), string_views(ids@), kind) == Some(j as int),
            None => first_by_ids(sources_view(styles@), string_views(ids@), kind) is None,
        },
{
    let ghost sv = sources_view(styles@);
    let ghost all = string_views(ids@);
    let mut i: usize = 0;
    assert(all.subrange(0, all.len() as int) =~= all);
    while i < ids.len()
        invariant
            i <= ids.len(),
            sv == sources_view(styles@),
            all == string_views(ids@),
            first_by_ids(sv, all, kind) == first_by_ids(sv, all.subrange(i as int, all.len() as int), kind),
        decreases ids.len() - i,
    {
        let ghost rest = all.subrange(i as int, all.len() as int);
        assert(rest[0] == ids@[i as int]@);
        assert(rest.subrange(1, rest.len() as int) =~= all.subrange(i + 1, all.len() as int));
        match last_by_id_exec(styles, &ids[i]) {
            Some(j) => {
                if kind_is(styles[j].kind, kind) {
                    return Some(j);
                }
            },
            None => {},
        }
        i += 1;
    }
    None
}

/// The style found for the first of `names` (see `first_by_names`).
fn first_by_names_exec(styles: &Vec<SourceStyle>, names: &Vec<String>, kind: StyleKind) -> (r: Option<usize>)
    ensures
        match r {
            Some(j) => first_by_names(sources_view(styles@), string_views(names@), kind) == Some(j as int),
            None => first_by_names(sources_view(styles@), string_views(names@), kind) is None,
        },
{
    let ghost sv = sources_view(styles@);
    let ghost all = string_views(names@);
    let mut i: usize = 0;
    assert(all.subrange(0, all.len() as int) =~= all);
    while i < names.len()
        invariant
            i <= names.len(),
            sv == sources_view(styles@),
            all == string_views(names@),
            first_by_names(sv, all, kind) == first_by_names(sv, all.subrange(i as int, all.len() as int), kind),
        decreases names.len() - i,
    {
        let ghost rest = all.subrange(i as int, all.len() as int);
        assert(rest[0] == names@[i as int]@);
        assert(rest.subrange(1, rest.len() as int) =~= all.subrange(i + 1, all.len() as int));
        let key = normalize_style_name(names[i].as_str());
        match last_by_name_exec(styles, &key) {
            Some(j) => {
                if kind_is(styles[j].kind, kind) {
                    return Some(j);
                }
            },
            None => {},
        }
        i += 1;
    }
    None
}

/// The template style a renderkit style is copied from (see
/// `find_source`).
pub fn find_style(styles: &Vec<SourceStyle>, ids: &Vec<String>, names: &Vec<String>, kind: StyleKind) -> (r: Option<usize>)
    ensures
        match r {
            Some(j) => find_source(sources_view(styles@), string_views(ids@), string_views(names@), kind) == Some(j as int),
            None => find_source(sources_view(styles@), string_views(ids@), string_views(names@), kind) is None,
        },
{
    match first_by_ids_exec(styles, ids, kind) {
        Some(j) => Some(j),
        None => first_by_names_exec(styles, names, kind),
    }
}

/// The sources of all specs in order, or the first spec without one (see
/// `source_of`).
pub open spec fn plan_sources(styles: Seq<SourceStyleV>, specs: Seq<StyleSpecV>) -> Result<Seq<int>, Seq<char>>
    decreases specs.len(),
{
    if specs.len() == 0 {
        Ok(seq![])
    } else {
        match plan_sources(styles, specs.drop_last()) {
            Err(e) => Err(e),
            Ok(v) => match source_of(styles, specs.last()) {
                Some(j) => Ok(v.push(j)),
                None => Err("cannot create style "@ + specs.last().id + ": no source style"@),
            },
        }
    }
}

/// The template style each renderkit style is copied from, in the order
/// of the specs; an error naming the first spec that has none.
pub fn renderkit_sources(styles: &Vec<SourceStyle>, specs: &Vec<StyleSpec>) -> (r: Result<Vec<usize>, String>)
    ensures
        match r {
            Ok(v) => plan_sources(sources_view(styles@), specs_view(specs@)) == Ok::<Seq<int>, Seq<char>>(Seq::new(v@.len(), |i: int| v@[i] as int)),
            Err(e) => plan_sources(sources_view(styles@), specs_view(specs@)) == Err::<Seq<int>, Seq<char>>(e@),
        },
{
    let normal = sv1("Normal");
    let mut out: Vec<usize> = Vec::new();
    let mut i: usize = 0;
    assert(specs_view(specs@).take(0) =~= Seq::<StyleSpecV>::empty());
    assert(Seq::new(out@.len(), |k: int| out@[k] as int) =~= Seq::<int>::empty());
    while i < specs.len()
        invariant
            i <= specs.len(),
            string_views(normal@) == seq!["Normal"@],
            plan_sources(sources_view(styles@), specs_view(specs@).take(i as int)) == Ok::<Seq<int>, Seq<char>>(Seq::new(out@.len(), |k: int| out@[k] as int)),
        decreases specs.len() - i,
    {
        let ghost t = specs_view(specs@).take(i + 1);
        assert(t.drop_last() =~= specs_view(specs@).take(i as int));
        assert(t.last() == specs@[i as int]@);
        let spec = &specs[i];
        let found = match find_style(styles, &spec.source_ids, &spec.source_names, spec.kind) {
            Some(j) => Some(j),
            None => find_style(styles, &normal, &normal, spec.kind),
        };
        match found {
            Some(j) => {
                let ghost before = out@;
                out.push(j);
                assert(Seq::new(out@.len(), |k: int| out@[k] as int) =~= Seq::new(before.len(), |k: int| before[k] as int).push(j as int));
            },
            None => {
                let mut e = to_string("cannot create style ");
                push_str(&mut e, spec.id.as_str());
                push_str(&mut e, ": no source style");
                let ghost pre = specs_view(specs@).take(i as int);
                assert(plan_sources(sources_view(styles@), t) == Err::<Seq<int>, Seq<char>>(e@));
                proof { lemma_plan_err_stays(sources_view(styles@), specs_view(specs@), i as int + 1, e@); }
                return Err(e);
            },
        }
        i += 1;
    }
    assert(specs_view(specs@).take(specs.len() as int) =~= specs_view(specs@));
    Ok(out)
}

/// Once a prefix of the specs fails, the whole plan fails with the same
/// error.
pub proof fn lemma_plan_err_stays(styles: Seq<SourceStyleV>, specs: Seq<StyleSpecV>, n: int, e: Seq<char>)
    requires
        0 <= n <= specs.len(),
        plan_sources(styles, specs.take(n)) == Err::<Seq<int>, Seq<char>>(e),
    ensures
        plan_sources(styles, specs) == Err::<Seq<int>, Seq<char>>(e),
    decreases specs.len() - n,
{
    if n == specs.len() {
        assert(specs.take(n) =~= specs);
    } else {
        assert(specs.take(n + 1).drop_last() =~= specs.take(n));
        lemma_plan_err_stays(styles, specs, n + 1, e);
    }
}

/// Whether a template style stays: it has no id, or an id that no
/// renderkit style takes.
pub open spec fn keeps_style(id: Option<Seq<char>>, specs: Seq<StyleSpecV>) -> bool {
    match id {
        None => true,
        Some(i) => forall|k: int| 0 <= k < specs.len() ==> #[trigger] specs[k].id != i,
    }
}

pub open spec fn opt_str(o: Option<&str>) -> Option<Seq<char>> {
    match o {
        Some(s) => Some(s@),
        None => None,
    }
}

/// Whether a template style stays (see `keeps_style`).
pub fn keep_style(id: Option<&str>, specs: &Vec<StyleSpec>) -> (b: bool)
    ensures
        b == keeps_style(opt_str(id), specs_view(specs@)),
{
    match id {
        None => true,
        Some(i) => {
            assert(opt_str(id) == Some(i@));
            let s = to_string(i);
            let mut k: usize = 0;
            while k < specs.len()
                invariant
                    k <= specs.len(),
                    s@ == i@,
                    opt_str(id) == Some(i@),
                    forall|j: int| 0 <= j < k ==> #[trigger] specs_view(specs@)[j].id != i@,
                decreases specs.len() - k,
            {
                if specs[k].id == s {
                    assert(specs_view(specs@)[k as int].id == i@);
                    assert(!keeps_style(Some(i@), specs_view(specs@)));
                    return false;
                }
                k += 1;
            }
            assert(keeps_style(Some(i@), specs_view(specs@)));
            true
        },
    }
}


/// The fonts of a run style: Arial with Microsoft YaHei for East Asian
/// text, or Consolas throughout.
#[derive(Clone, Copy, Debug, PartialEq, Eq)]
pub enum FontSet {
    Body,
    Code,
}

/// The run formatting of a style: fonts, size in half points, bold, and
/// optionally a background fill, a colour and a single underline.
#[derive(Clone, Debug)]
pub struct RunFormat {
    pub fonts: FontSet,
    pub size: String,
    pub bold: bool,
    pub shading: Option<String>,
    pub color: Option<String>,
    pub underline: bool,
}

pub struct RunFormatV {
    pub fonts: FontSet,
    pub size: Seq<char>,
    pub bold: bool,
    pub shading: Option<Seq<char>>,
    pub color: Option<Seq<char>>,
    pub underline: bool,
}

impl View for RunFormat {
    type V = RunFormatV;

    open spec fn view(&self) -> RunFormatV {
        RunFormatV {
            fonts: self.fonts,
            size: self.size@,
            bold: self.bold,
            shading: crate::docx_model::opt_seq(self.shading),
            color: crate::docx_model::opt_seq(self.color),
            underline: self.underline,
        }
    }
}

/// The paragraph formatting of a style: space before and after and the
/// line height (relative to the font) in twips, the indents, the alignment
/// and a background fill.
#[derive(Clone, Debug)]
pub struct ParaFormat {
    pub before: u64,
    pub after: u64,
    pub line: i64,
    pub first_line: Option<u64>,
    pub left: Option<i64>,
    pub right: Option<i64>,
    pub justification: Option<crate::docx_model::Justify>,
    pub shading: Option<String>,
}

pub struct ParaFormatV {
    pub before: u64,
    pub after: u64,
    pub line: i64,
    pub first_line: Option<u64>,
    pub left: Option<i64>,
    pub right: Option<i64>,
    pub justification: Option<crate::docx_model::Justify>,
    pub shading: Option<Seq<char>>,
}

impl View for ParaFormat {
    type V = ParaFormatV;

    open spec fn view(&self) -> ParaFormatV {
        ParaFormatV {
            before: self.before,
            after: self.after,
            line: self.line,
            first_line: self.first_line,
            left: self.left,
            right: self.right,
            justification: self.justification,
            shading: crate::docx_model::opt_seq(self.shading),
        }
    }
}

/// How a renderkit style is formatted after it is copied.
#[derive(Clone, Debug)]
pub enum StyleFormatting {
    /// Left as copied.
    Unchanged,
    /// Paragraph and run properties replaced; `None` leaves them as copied.
    Replace { paragraph: Option<ParaFormat>, run: Option<RunFormat> },
    /// A heading: the copied paragraph properties kept, but without
    /// numbering and with this justification and spacing (space before
    /// and after, line spacing); runs formatted as `run`.
    Heading { justification: crate::docx_model::Justify, before: u64, after: u64, line: i64, run: RunFormat },
    /// The table style: centred, single borders, cell margins of 108 twips
    /// on the sides, and a header row centred, bold and grey.
    Table,
}

pub enum StyleFormattingV {
    Unchanged,
    Replace { paragraph: Option<ParaFormatV>, run: Option<RunFormatV> },
    Heading { justification: crate::docx_model::Justify, before: u64, after: u64, line: i64, run: RunFormatV },
    Table,
}

impl View for StyleFormatting {
    type V = StyleFormattingV;

    open spec fn view(&self) -> StyleFormattingV {
        match self {
            StyleFormatting::Unchanged => StyleFormattingV::Unchanged,
            StyleFormatting::Replace { paragraph, run } => StyleFormattingV::Replace {
                paragraph: match paragraph {
                    Some(p) => Some(p@),
                    None => None,
                },
                run: match run {
                    Some(r) => Some(r@),
                    None => None,
                },
            },
            StyleFormatting::Heading { justification, before, after, line, run } => StyleFormattingV::Heading {
                justification: *justification,
                before: *before,
                after: *after,
                line: *line,
                run: run@,
            },
            StyleFormatting::Table => StyleFormattingV::Table,
        }
    }
}

pub open spec fn run_v(fonts: FontSet, size: Seq<char>, bold: bool) -> RunFormatV {
    RunFormatV { fonts, size, bold, shading: None, color: None, underline: false }
}

/// Single spaced paragraphs without space around, justified on both
/// sides, with an optional first-line indent.
pub open spec fn body_para_v(first_line: Option<u64>) -> ParaFormatV {
    ParaFormatV {
        before: 0,
        after: 0,
        line: 240,
        first_line,
        left: None,
        right: None,
        justification: Some(crate::docx_model::Justify::Both),
        shading: None,
    }
}

/// The font size of a heading level, in half points.
pub open spec fn heading_size(level: int) -> Seq<char> {
    if level == 1 { "28"@ } else if level == 2 { "24"@ } else { "21"@ }
}

/// The font size of a heading level (see `heading_size`).
pub fn heading_font_size(level: usize) -> (r: &'static str)
    ensures
        r@ == heading_size(level as int),
{
    if level == 1 {
        "28"
    } else if level == 2 {
        "24"
    } else {
        "21"
    }
}

/// `s` without all leading copies of `p`, as `str::trim_start_matches`
/// leaves it.
pub open spec fn trim_prefix_all(s: Seq<char>, p: Seq<char>) -> Seq<char>
    decreases s.len(),
{
    if p.len() > 0 && seq_starts_with(s, p) {
        trim_prefix_all(s.subrange(p.len() as int, s.len() as int), p)
    } else {
        s
    }
}

pub open spec fn is_digit(c: char) -> bool {
    '0' <= c <= '9'
}

/// The value of decimal digits.
pub open spec fn digits_value(s: Seq<char>) -> nat
    decreases s.len(),
{
    if s.len() == 0 { 0 } else { digits_value(s.drop_last()) * 10 + ((s.last() as nat) - ('0' as nat)) as nat }
}

/// `s` without a leading `+`.
pub open spec fn strip_plus(s: Seq<char>) -> Seq<char> {
    if s.len() > 0 && s[0] == '+' { s.subrange(1, s.len() as int) } else { s }
}

/// Whether every character of `d` is a decimal digit.
pub open spec fn all_digits(d: Seq<char>) -> bool {
    forall|i: int| 0 <= i < d.len() ==> #[trigger] is_digit(d[i])
}

/// The number that decimal digits `d` make, if they fit in `usize`.
pub open spec fn parsed_digits(d: Seq<char>) -> Option<nat> {
    if d.len() > 0 && all_digits(d) && digits_value(d) <= usize::MAX { Some(digits_value(d)) } else { None }
}

/// The number `str::parse::<usize>` reads from `s`: decimal digits after an
/// optional `+`, fitting in `usize`.
pub open spec fn parsed_usize(s: Seq<char>) -> Option<nat> {
    parsed_digits(strip_plus(s))
}

/// The level a heading style's id names; 3 when it names none.
pub open spec fn heading_style_level(id: Seq<char>) -> int {
    match parsed_usize(trim_prefix_all(id, "RenderkitHeading"@)) {
        Some(n) => n as int,
        None => 3,
    }
}

/// How the renderkit style `id` is formatted: body, list, quote, code,
/// inline code, image, contents heading, table and hyperlink styles each
/// their own way; headings by their level; contents levels in the body
/// run style; anything else unchanged.
pub open spec fn formatting_of(id: Seq<char>) -> StyleFormattingV {
    let body_run = Some(run_v(FontSet::Body, "21"@, false));
    if id == "RenderkitBody"@ {
        StyleFormattingV::Replace { paragraph: Some(body_para_v(Some(420))), run: body_run }
    } else if id == "RenderkitList"@ {
        StyleFormattingV::Replace { paragraph: Some(body_para_v(None)), run: body_run }
    } else if id == "RenderkitQuote"@ {
        StyleFormattingV::Replace { paragraph: Some(ParaFormatV { left: Some(420), ..body_para_v(None) }), run: body_run }
    } else if id == "RenderkitCode"@ {
        StyleFormattingV::Replace {
            paragraph: Some(ParaFormatV {
                before: 0,
                after: 0,
                line: 324,
                first_line: None,
                left: None,
                right: None,
                justification: Some(crate::docx_model::Justify::Both),
                shading: Some("F6F8FA"@),
            }),
            run: Some(run_v(FontSet::Code, "21"@, false)),
        }
    } else if id == "RenderkitInlineCode"@ {
        StyleFormattingV::Replace { paragraph: None, run: Some(RunFormatV { shading: Some("F6F8FA"@), ..run_v(FontSet::Code, "21"@, false) }) }
    } else if id == "RenderkitImage"@ {
        StyleFormattingV::Replace {
            paragraph: Some(ParaFormatV {
                before: 0,
                after: 0,
                line: 240,
                first_line: Some(0),
                left: Some(0),
                right: Some(0),
                justification: Some(crate::docx_model::Justify::Center),
                shading: None,
            }),
            run: body_run,
        }
    } else if id == "RenderkitTocHeading"@ {
        StyleFormattingV::Replace {
            paragraph: Some(ParaFormatV {
                before: 0,
                after: 0,
                line: 240,
                first_line: None,
                left: None,
                right: None,
                justification: Some(crate::docx_model::Justify::Center),
                shading: None,
            }),
            run: Some(run_v(FontSet::Body, "48"@, true)),
        }
    } else if id == "RenderkitTable"@ {
        StyleFormattingV::Table
    } else if id == "RenderkitHyperlink"@ {
        StyleFormattingV::Replace {
            paragraph: None,
            run: Some(RunFormatV { color: Some("0563C1"@), underline: true, ..run_v(FontSet::Body, "21"@, false) }),
        }
    } else if seq_starts_with(id, "RenderkitHeading"@) {
        StyleFormattingV::Heading {
            justification: crate::docx_model::Justify::Both,
            before: 0,
            after: 0,
            line: 240,
            run: run_v(FontSet::Body, heading_size(heading_style_level(id)), true),
        }
    } else if seq_starts_with(id, "RenderkitToc"@) {
        StyleFormattingV::Replace { paragraph: None, run: body_run }
    } else {
        StyleFormattingV::Unchanged
    }
}

fn run_format(fonts: FontSet, size: &str, bold: bool) -> (r: RunFormat)
    ensures
        r@ == run_v(fonts, size@, bold),
{
    RunFormat { fonts, size: to_string(size), bold, shading: None, color: None, underline: false }
}

fn body_para(first_line: Option<u64>) -> (r: ParaFormat)
    ensures
        r@ == body_para_v(first_line),
{
    ParaFormat {
        before: 0,
        after: 0,
        line: 240,
        first_line,
        left: None,
        right: None,
        justification: Some(crate::docx_model::Justify::Both),
        shading: None,
    }
}

/// `s` without all leading copies of `p` (see `trim_prefix_all`).
fn trim_prefix(s: &str, p: &str) -> (r: Vec<char>)
    ensures
        r@ == trim_prefix_all(s@, p@),
{
    let sv = chars_of(s);
    let pv = chars_of(p);
    let mut start: usize = 0;
    assert(sv@.subrange(0, sv@.len() as int) =~= sv@);
    while pv.len() > 0 && pv.len() <= sv.len() - start && crate::text::matches_at(&sv, &pv, start)
        invariant
            start <= sv.len(),
            sv@ == s@,
            pv@ == p@,
            trim_prefix_all(s@, p@) == trim_prefix_all(sv@.subrange(start as int, sv@.len() as int), p@),
        decreases sv.len() - start,
    {
        let ghost rest = sv@.subrange(start as int, sv@.len() as int);
        assert(rest.subrange(0, pv@.len() as int) =~= sv@.subrange(start as int, start + pv@.len()));
        assert(rest.subrange(pv@.len() as int, rest.len() as int) =~= sv@.subrange(start + pv@.len(), sv@.len() as int));
        start = start + pv.len();
    }
    proof {
        let rest = sv@.subrange(start as int, sv@.len() as int);
        if pv@.len() > 0 && start + pv@.len() <= sv@.len() {
            assert(rest.subrange(0, pv@.len() as int) =~= sv@.subrange(start as int, start + pv@.len()));
        }
    }
    crate::text::slice_to_vec(&sv, start, sv.len())
}

/// The number `str::parse::<usize>` reads from `s` (see `parsed_usize`).
fn parse_usize(s: &[char]) -> (r: Option<usize>)
    ensures
        match r {
            Some(n) => parsed_usize(s@) == Some(n as nat),
            None => parsed_usize(s@) is None,
        },
{
    let start: usize = if s.len() > 0 && s[0] == '+' { 1 } else { 0 };
    let ghost d = strip_plus(s@);
    assert(d =~= s@.subrange(start as int, s@.len() as int));
    if start >= s.len() {
        return None;
    }
    let mut value: usize = 0;
    let mut i: usize = start;
    while i < s.len()
        invariant
            start <= i <= s.len(),
            d == strip_plus(s@),
            d =~= s@.subrange(start as int, s@.len() as int),
            forall|k: int| 0 <= k < i - start ==> #[trigger] is_digit(d[k]),
            value as nat == digits_value(d.take(i - start)),
        decreases s.len() - i,
    {
        let c = s[i];
        if !('0' <= c && c <= '9') {
            assert(d[i - start] == c);
            assert(!is_digit(d[i - start]));
            assert(!all_digits(d));
            return None;
        }
        let digit = (c as u32 - '0' as u32) as usize;
        assert(d.take(i + 1 - start).drop_last() =~= d.take(i - start));
        assert(d.take(i + 1 - start).last() == c);
        assert(digits_value(d.take(i + 1 - start)) == value * 10 + digit);
        if value > (usize::MAX - digit) / 10 {
            assert(value * 10 + digit > usize::MAX) by (nonlinear_arith)
                requires value > (usize::MAX - digit) / 10, digit <= 9;
            proof { lemma_digits_le(d, (i + 1 - start) as int); }
            return None;
        }
        assert(value * 10 + digit <= usize::MAX) by (nonlinear_arith)
            requires value <= (usize::MAX - digit) / 10, digit <= 9;
        value = value * 10 + digit;
        i += 1;
    }
    assert(d.take(d.len() as int) =~= d);
    Some(value)
}

proof fn lemma_digits_le(d: Seq<char>, n: int)
    requires
        0 <= n <= d.len(),
    ensures
        digits_value(d.take(n)) <= digits_value(d),
    decreases d.len(),
{
    if n == d.len() {
        assert(d.take(n) =~= d);
    } else {
        lemma_digits_le(d.drop_last(), n);
        assert(d.drop_last().take(n) =~= d.take(n));
        let a = digits_value(d.drop_last());
        assert(a <= a * 10) by (nonlinear_arith);
    }
}

/// How the renderkit style `id` is formatted (see `formatting_of`).
pub fn style_formatting(id: &str) -> (r: StyleFormatting)
    ensures
        r@ == formatting_of(id@),
{
    let s = to_string(id);
    if s == to_string("RenderkitBody") {
        StyleFormatting::Replace { paragraph: Some(body_para(Some(420))), run: Some(run_format(FontSet::Body, "21", false)) }
    } else if s == to_string("RenderkitList") {
        StyleFormatting::Replace { paragraph: Some(body_para(None)), run: Some(run_format(FontSet::Body, "21", false)) }
    } else if s == to_string("RenderkitQuote") {
        let mut p = body_para(None);
        p.left = Some(420);
        StyleFormatting::Replace { paragraph: Some(p), run: Some(run_format(FontSet::Body, "21", false)) }
    } else if s == to_string("RenderkitCode") {
        StyleFormatting::Replace {
            paragraph: Some(ParaFormat {
                before: 0,
                after: 0,
                line: 324,
                first_line: None,
                left: None,
                right: None,
                justification: Some(crate::docx_model::Justify::Both),
                shading: Some(to_string("F6F8FA")),
            }),
            run: Some(run_format(FontSet::Code, "21", false)),
        }
    } else if s == to_string("RenderkitInlineCode") {
        let mut r = run_format(FontSet::Code, "21", false);
        r.shading = Some(to_string("F6F8FA"));
        StyleFormatting::Replace { paragraph: None, run: Some(r) }
    } else if s == to_string("RenderkitImage") {
        StyleFormatting::Replace {
            paragraph: Some(ParaFormat {
                before: 0,
                after: 0,
                line: 240,
                first_line: Some(0),
                left: Some(0),
                right: Some(0),
                justification: Some(crate::docx_model::Justify::Center),
                shading: None,
            }),
            run: Some(run_format(FontSet::Body, "21", false)),
        }
    } else if s == to_string("RenderkitTocHeading") {
        StyleFormatting::Replace {
            paragraph: Some(ParaFormat {
                before: 0,
                after: 0,
                line: 240,
                first_line: None,
                left: None,
                right: None,
                justification: Some(crate::docx_model::Justify::Center),
                shading: None,
            }),
            run: Some(run_format(FontSet::Body, "48", true)),
        }
    } else if s == to_string("RenderkitTable") {
        StyleFormatting::Table
    } else if s == to_string("RenderkitHyperlink") {
        let mut r = run_format(FontSet::Body, "21", false);
        r.color = Some(to_string("0563C1"));
        r.underline = true;
        StyleFormatting::Replace { paragraph: None, run: Some(r) }
    } else if starts_with(&chars_of(id), "RenderkitHeading") {
        let rest = trim_prefix(id, "RenderkitHeading");
        let level = match parse_usize(&rest) {
            Some(n) => n,
            None => 3,
        };
        StyleFormatting::Heading {
            justification: crate::docx_model::Justify::Both,
            before: 0,
            after: 0,
            line: 240,
            run: run_format(FontSet::Body, heading_font_size(level), true),
        }
    } else if starts_with(&chars_of(id), "RenderkitToc") {
        StyleFormatting::Replace { paragraph: None, run: Some(run_format(FontSet::Body, "21", false)) }
    } else {
        StyleFormatting::Unchanged
    }
}

} // verus!
