//! The EPUB renderer's decisions: settings, metadata, chapter titles and
//! files, link rewriting, the resources to bundle, and each chapter's XHTML
//! page around its rendered body.

use vstd::prelude::*;
use pulldown_cmark::{CowStr, Event, Options, Parser, Tag};
use crate::book::ChapterInfo;
use crate::heading_number::{format_section_components, section_text};
use crate::paths::{
    is_remote_url, looks_like_email, md_link_to_html, md_path_to_html, md_to_html_link,
    normalize_output_path, output_path, spec_is_remote_url, spec_looks_like_email, strip_fragment,
    with_html_extension, without_fragment, segments, is_normal_segment,
};
use crate::text::{
    chars_of, find_char, join_strings, join_with, push_char, push_str, seq_starts_with, split_once,
    starts_with, string_of, string_views, substring, to_string, slice_to_vec, lemma_first_index_from,
};

verus! {

/// Settings of the EPUB output (`[output.epub]`).
pub struct EpubConfig {
    pub epub_version: u8,
    pub no_section_label: bool,
    pub use_default_css: bool,
    pub additional_css: Vec<String>,
    pub cover_image: Option<String>,
}

impl EpubConfig {
    /// EPUB 3, section labels in titles, the built-in stylesheet, no extra
    /// stylesheets and no cover image.
    pub fn default_config() -> (r: EpubConfig)
        ensures
            r.epub_version == 3,
            !r.no_section_label,
            r.use_default_css,
            r.additional_css@.len() == 0,
            r.cover_image is None,
    {
        EpubConfig {
            epub_version: 3,
            no_section_label: false,
            use_default_css: true,
            additional_css: Vec::new(),
            cover_image: None,
        }
    }
}

/// The EPUB version of the output.
#[derive(Clone, Copy, Debug, PartialEq, Eq)]
pub enum EpubVersion {
    V20,
    V30,
}

/// Version 2 when the settings ask for 2, otherwise version 3.
pub fn epub_version(version: u8) -> (r: EpubVersion)
    ensures
        r == (if version == 2 { EpubVersion::V20 } else { EpubVersion::V30 }),
{
    if version == 2 { EpubVersion::V20 } else { EpubVersion::V30 }
}

/// The metadata entries of the book: generator, language (`en` by default),
/// then title, description and the authors joined by `, ` where given.
pub open spec fn metadata_entries(
    title: Option<Seq<char>>,
    description: Option<Seq<char>>,
    language: Option<Seq<char>>,
    authors: Seq<Seq<char>>,
) -> Seq<(Seq<char>, Seq<char>)> {
    seq![("generator"@, "mdbook-renderkit"@), ("lang"@, match language { Some(l) => l, None => "en"@ })]
        + (match title { Some(t) => seq![("title"@, t)], None => seq![] })
        + (match description { Some(d) => seq![("description"@, d)], None => seq![] })
        + (if authors.len() == 0 { seq![] } else { seq![("author"@, join_with(authors, ", "@))] })
}

pub open spec fn pairs_view(v: Seq<(String, String)>) -> Seq<(Seq<char>, Seq<char>)> {
    Seq::new(v.len(), |i: int| (v[i].0@, v[i].1@))
}

pub open spec fn opt_str(s: Option<&str>) -> Option<Seq<char>> {
    match s {
        Some(t) => Some(t@),
        None => None,
    }
}

/// The metadata of the book (see `metadata_entries`).
pub fn populate_metadata(
    title: Option<&str>,
    description: Option<&str>,
    language: Option<&str>,
    authors: &[String],
) -> (r: Vec<(String, String)>)
    ensures
        pairs_view(r@) == metadata_entries(opt_str(title), opt_str(description), opt_str(language), string_views(authors@)),
{
    let mut out: Vec<(String, String)> = Vec::new();
    out.push((to_string("generator"), to_string("mdbook-renderkit")));
    let lang = match language {
        Some(l) => to_string(l),
        None => to_string("en"),
    };
    out.push((to_string("lang"), lang));
    if let Some(t) = title {
        out.push((to_string("title"), to_string(t)));
    }
    if let Some(d) = description {
        out.push((to_string("description"), to_string(d)));
    }
    if authors.len() > 0 {
        out.push((to_string("author"), join_strings(authors, ", ")));
    }
    assert(pairs_view(out@) =~= metadata_entries(opt_str(title), opt_str(description), opt_str(language), string_views(authors@)));
    out
}

/// The title of a chapter in the table of contents: its number and name,
/// or only its name without a number or with section labels switched off.
pub open spec fn epub_chapter_title(no_section_label: bool, name: Seq<char>, number: Option<Seq<u32>>) -> Seq<char> {
    if no_section_label {
        name
    } else {
        match number {
            Some(n) => section_text(n) + " "@ + name,
            None => name,
        }
    }
}

/// The title of a chapter (see `epub_chapter_title`).
pub fn chapter_title(cfg: &EpubConfig, chapter: &ChapterInfo) -> (r: String)
    ensures
        r@ == epub_chapter_title(cfg.no_section_label, chapter.name@, crate::typst::number_view(chapter.number)),
{
    if cfg.no_section_label {
        return chapter.name.clone();
    }
    match &chapter.number {
        Some(n) => {
            let mut t = format_section_components(n.as_slice());
            push_char(&mut t, ' ');
            push_str(&mut t, chapter.name.as_str());
            proof { reveal_strlit(" "); }
            t
        },
        None => chapter.name.clone(),
    }
}

/// The nesting level of a chapter in the table of contents: one less than
/// the length of its number, 0 without a number.
pub fn content_level(chapter: &ChapterInfo) -> (r: i32)
    ensures
        r == match chapter.number {
            Some(n) => if n@.len() > 0 { (n@.len() - 1) as i32 } else { 0 },
            None => 0,
        },
{
    match &chapter.number {
        Some(n) => if n.len() > 0 { (n.len() - 1) as i32 } else { 0 },
        None => 0,
    }
}

/// The file a chapter becomes: its source path (or else its path) with an
/// `.html` extension; `None` for a draft chapter.
pub fn chapter_file(chapter: &ChapterInfo) -> (r: Option<String>)
    ensures
        match r {
            Some(f) => match chapter.source_path {
                Some(p) => f@ == with_html_extension(p@),
                None => chapter.path matches Some(p) && f@ == with_html_extension(p@),
            },
            None => chapter.source_path is None && chapter.path is None,
        },
{
    match &chapter.source_path {
        Some(p) => Some(md_path_to_html(p.as_str())),
        None => match &chapter.path {
            Some(p) => Some(md_path_to_html(p.as_str())),
            None => None,
        },
    }
}

/// How a link in a chapter reads in the EPUB: remote URLs and e-mail
/// addresses stay, `.md` targets become `.html`, fragments stay.
pub open spec fn epub_link(dest: Seq<char>) -> Seq<char> {
    if spec_is_remote_url(dest) || spec_looks_like_email(dest) {
        dest
    } else {
        match split_once(dest, '#') {
            Some((p, f)) => if p.len() == 0 { "#"@ + f } else { md_to_html_link(p) + "#"@ + f },
            None => md_to_html_link(dest),
        }
    }
}

/// Rewrites a link target of a chapter (see `epub_link`); the chapter's
/// directory plays no part.
pub fn rewrite_link(chapter_dir: Option<&str>, dest_url: &str) -> (r: String)
    ensures
        r@ == epub_link(dest_url@),
{
    if is_remote_url(dest_url) || looks_like_email(dest_url) {
        return to_string(dest_url);
    }
    let s = chars_of(dest_url);
    match find_char(&s, '#') {
        Some(i) => {
            let fragment = substring(&s, i + 1, s.len());
            if i == 0 {
                let mut out = to_string("#");
                push_str(&mut out, fragment.as_str());
                return out;
            }
            let path = substring(&s, 0, i);
            let mut out = md_link_to_html(path.as_str());
            push_char(&mut out, '#');
            push_str(&mut out, fragment.as_str());
            proof { reveal_strlit("#"); }
            out
        },
        None => md_link_to_html(dest_url),
    }
}

/// The number of segments that are neither empty nor `.`.
pub open spec fn entry_count(segs: Seq<Seq<char>>) -> nat
    decreases segs.len(),
{
    if segs.len() == 0 {
        0
    } else {
        entry_count(segs.drop_last()) + (if segs.last().len() != 0 && segs.last() != seq!['.'] { 1nat } else { 0nat })
    }
}

/// The number of components of a directory path, as `Path::components`
/// counts them: a leading `/`, a leading `.` of a relative path, and every
/// other segment that is not empty or `.`.
pub open spec fn component_count(dir: Seq<char>) -> nat {
    let segs = segments(dir);
    (if seq_starts_with(dir, "/"@) { 1nat } else { 0nat })
        + (if !seq_starts_with(dir, "/"@) && segs.len() > 0 && segs[0] == seq!['.'] { 1nat } else { 0nat })
        + entry_count(segs)
}

/// `n` times `../`.
pub open spec fn parent_steps(n: nat) -> Seq<char>
    decreases n,
{
    if n == 0 { seq![] } else { parent_steps((n - 1) as nat) + "../"@ }
}

/// The relative path from a chapter's directory to the book's stylesheet:
/// one `..` per component of the directory, then `stylesheet.css`.
pub open spec fn stylesheet_href(dir: Option<Seq<char>>) -> Seq<char> {
    match dir {
        Some(d) => parent_steps(component_count(d)) + "stylesheet.css"@,
        None => "stylesheet.css"@,
    }
}

/// The number of segments of `dir` that are neither empty nor `.`.
fn count_entries(dir: &str) -> (n: usize)
    ensures
        n == entry_count(segments(dir@)),
{
    let s = chars_of(dir);
    let mut n: usize = 0;
    let mut i: usize = 0;
    let ghost mut done: Seq<Seq<char>> = seq![];
    loop
        invariant_except_break
            crate::paths::segments_from(s@, 0) == done + crate::paths::segments_from(s@, i as int),
            n == entry_count(done),
            n <= i,
        invariant
            s@ == dir@,
            i <= s.len(),
        ensures
            n == entry_count(segments(s@)),
        decreases s.len() - i,
    {
        let found = crate::text::find_char_from(&s, '/', i);
        let j = match found { Some(j) => j, None => s.len() };
        let seg = slice_to_vec(&s, i, j);
        let counts = !(seg.len() == 0 || (seg.len() == 1 && seg[0] == '.'));
        proof {
            if seg.len() == 1 {
                if seg[0] == '.' { assert(seg@ =~= seq!['.']); } else { assert(seg@ != seq!['.']) by { if seg@ == seq!['.'] { assert(seg@[0] == '.'); } } }
            }
            if seg.len() > 1 { assert(seg@ != seq!['.']) by { if seg@ == seq!['.'] { assert(seg@.len() == 1); } } }
        }
        if counts {
            n = n + 1;
        }
        proof {
            let nd = done.push(seg@);
            assert(nd.drop_last() =~= done);
            match found {
                Some(j) => {
                    assert(crate::paths::segments_from(s@, i as int) =~= seq![seg@] + crate::paths::segments_from(s@, j + 1));
                    assert(done + crate::paths::segments_from(s@, i as int) =~= nd + crate::paths::segments_from(s@, j + 1));
                },
                None => {
                    assert(crate::paths::segments_from(s@, i as int) =~= seq![seg@]);
                },
            }
            done = nd;
        }
        match found {
            Some(j) => { i = j + 1; },
            None => {
                assert(done =~= segments(s@));
                break;
            },
        }
    }
    n
}

/// The path from a chapter's directory to the stylesheet (see `stylesheet_href`).
pub fn stylesheet_path(chapter_dir: Option<&str>) -> (r: String)
    ensures
        r@ == stylesheet_href(opt_str(chapter_dir)),
{
    match chapter_dir {
        None => to_string("stylesheet.css"),
        Some(d) => {
            let dv = chars_of(d);
            let rooted = starts_with(&dv, "/");
            let entries = count_entries(d);
            proof { reveal_strlit("/"); }
            let first = crate::text::find_char(&dv, '/');
            let first_is_dot = !rooted && match first {
                Some(k) => k == 1 && dv[0] == '.',
                None => dv.len() == 1 && dv[0] == '.',
            };
            proof {
                let segs = segments(dv@);
                lemma_first_index_from(dv@, '/', 0);
                match first {
                    Some(k) => {
                        assert(segs[0] == dv@.subrange(0, k as int));
                        if k == 1 && dv@[0] == '.' { assert(segs[0] =~= seq!['.']); }
                        if segs[0] == seq!['.'] { assert(segs[0].len() == 1); assert(segs[0][0] == '.'); }
                    },
                    None => {
                        assert(segs[0] == dv@.subrange(0, dv@.len() as int));
                        if dv.len() == 1 && dv@[0] == '.' { assert(segs[0] =~= seq!['.']); }
                        if segs[0] == seq!['.'] { assert(segs[0].len() == 1); assert(segs[0][0] == '.'); }
                    },
                }
            }
            let mut total: u128 = entries as u128;
            if rooted { total = total + 1; }
            if first_is_dot { total = total + 1; }
            let mut out = String::new();
            let mut k: u128 = 0;
            while k < total
                invariant
                    k <= total,
                    out@ == parent_steps(k as nat),
                decreases total - k,
            {
                push_str(&mut out, "../");
                k += 1;
            }
            push_str(&mut out, "stylesheet.css");
            out
        },
    }
}


/// One character as HTML text.
pub open spec fn html_char(c: char) -> Seq<char> {
    if c == '&' {
        "&amp;"@
    } else if c == '<' {
        "&lt;"@
    } else if c == '>' {
        "&gt;"@
    } else if c == '"' {
        "&quot;"@
    } else if c == '\'' {
        "&#39;"@
    } else {
        seq![c]
    }
}

/// `s` as HTML text.
pub open spec fn escaped_html(s: Seq<char>) -> Seq<char>
    decreases s.len(),
{
    if s.len() == 0 { seq![] } else { escaped_html(s.drop_last()) + html_char(s.last()) }
}

/// `escaped_html` read from the front.
proof fn lemma_escaped_html_front(s: Seq<char>)
    requires
        s.len() > 0,
    ensures
        escaped_html(s) == html_char(s[0]) + escaped_html(s.subrange(1, s.len() as int)),
    decreases s.len(),
{
    if s.len() == 1 {
        assert(s.drop_last() =~= Seq::<char>::empty());
        assert(s.subrange(1, 1) =~= Seq::<char>::empty());
    } else {
        let t = s.drop_last();
        lemma_escaped_html_front(t);
        assert(t.subrange(1, t.len() as int) =~= s.subrange(1, s.len() as int).drop_last());
        assert(s.subrange(1, s.len() as int).last() == s.last());
    }
}

/// Escaping for HTML loses nothing: different texts give different HTML.
pub proof fn lemma_escaped_html_injective(a: Seq<char>, b: Seq<char>)
    requires
        escaped_html(a) == escaped_html(b),
    ensures
        a == b,
    decreases a.len() + b.len(),
{
    reveal_strlit("&amp;");
    reveal_strlit("&lt;");
    reveal_strlit("&gt;");
    reveal_strlit("&quot;");
    reveal_strlit("&#39;");
    if a.len() == 0 || b.len() == 0 {
        if a.len() > 0 {
            lemma_escaped_html_front(a);
        }
        if b.len() > 0 {
            lemma_escaped_html_front(b);
        }
        assert(a =~= b);
    } else {
        lemma_escaped_html_front(a);
        lemma_escaped_html_front(b);
        let ca = html_char(a[0]);
        let cb = html_char(b[0]);
        let e = escaped_html(a);
        assert(e[0] == ca[0] && e[0] == cb[0]);
        assert(ca.len() > 1 <==> ca[0] == '&');
        assert(cb.len() > 1 <==> cb[0] == '&');
        if ca.len() > 1 {
            assert(e[1] == ca[1] && e[1] == cb[1]);
        }
        assert(ca =~= cb);
        assert(a[0] == b[0]);
        assert(escaped_html(a.subrange(1, a.len() as int)) =~= e.subrange(ca.len() as int, e.len() as int));
        assert(escaped_html(b.subrange(1, b.len() as int)) =~= e.subrange(cb.len() as int, e.len() as int));
        lemma_escaped_html_injective(a.subrange(1, a.len() as int), b.subrange(1, b.len() as int));
        assert(a =~= seq![a[0]] + a.subrange(1, a.len() as int));
        assert(b =~= seq![b[0]] + b.subrange(1, b.len() as int));
    }
}

/// `text` as HTML text (see `escaped_html`).
pub fn escape_html(text: &str) -> (r: String)
    ensures
        r@ == escaped_html(text@),
{
    let s = chars_of(text);
    let mut out = String::new();
    let mut i: usize = 0;
    while i < s.len()
        invariant
            i <= s.len(),
            out@ == escaped_html(s@.take(i as int)),
        decreases s.len() - i,
    {
        let c = s[i];
        if c == '&' {
            push_str(&mut out, "&amp;");
        } else if c == '<' {
            push_str(&mut out, "&lt;");
        } else if c == '>' {
            push_str(&mut out, "&gt;");
        } else if c == '"' {
            push_str(&mut out, "&quot;");
        } else if c == '\'' {
            push_str(&mut out, "&#39;");
        } else {
            push_char(&mut out, c);
        }
        proof {
            let t = s@.take(i + 1);
            assert(t.drop_last() =~= s@.take(i as int));
        }
        i += 1;
    }
    assert(s@.take(s.len() as int) =~= s@);
    out
}

/// The XHTML page of a chapter around its rendered body.
pub open spec fn chapter_page(name: Seq<char>, body: Seq<char>, dir: Option<Seq<char>>) -> Seq<char> {
    "<?xml version=\"1.0\" encoding=\"UTF-8\" standalone=\"no\"?>\n<!DOCTYPE html>\n<html xmlns=\"http://www.w3.org/1999/xhtml\" xmlns:epub=\"http://www.idpf.org/2007/ops\" xml:lang=\"en\" lang=\"en\">\n<head>\n<meta http-equiv=\"Content-Type\" content=\"text/html; charset=utf-8\" />\n<title>"@
        + escaped_html(name) + "</title>\n<link rel=\"stylesheet\" href=\""@ + stylesheet_href(dir)
        + "\" />\n</head>\n<body>\n"@ + body + "\n</body>\n</html>\n"@
}

/// The XHTML page of a chapter named `name` in `chapter_dir` whose rendered
/// HTML is `body` (see `chapter_page`).
pub fn chapter_xhtml(name: &str, body: &str, chapter_dir: Option<&str>) -> (r: String)
    ensures
        r@ == chapter_page(name@, body@, opt_str(chapter_dir)),
{
    let mut out = to_string(
        "<?xml version=\"1.0\" encoding=\"UTF-8\" standalone=\"no\"?>\n<!DOCTYPE html>\n<html xmlns=\"http://www.w3.org/1999/xhtml\" xmlns:epub=\"http://www.idpf.org/2007/ops\" xml:lang=\"en\" lang=\"en\">\n<head>\n<meta http-equiv=\"Content-Type\" content=\"text/html; charset=utf-8\" />\n<title>",
    );
    let t = escape_html(name);
    push_str(&mut out, t.as_str());
    push_str(&mut out, "</title>\n<link rel=\"stylesheet\" href=\"");
    let css = stylesheet_path(chapter_dir);
    push_str(&mut out, css.as_str());
    push_str(&mut out, "\" />\n</head>\n<body>\n");
    push_str(&mut out, body);
    push_str(&mut out, "\n</body>\n</html>\n");
    out
}

/// The media type that `mime_guess` gives a path, by its extension.
pub uninterp spec fn guessed_media_type(path: Seq<char>) -> Seq<char>;

/// `mime_guess::from_path(path).first_or_octet_stream()` as text: the media
/// type the crate's table gives the path's extension, and
/// `application/octet-stream` for a path without a known one. Claimed: it
/// depends on the path alone.
#[verifier::external_body]
fn media_type(path: &str) -> (r: String)
    ensures
        r@ == guessed_media_type(path@),
{
    mime_guess::from_path(path).first_or_octet_stream().to_string()
}

/// The path and media type of a resource to bundle.
pub fn resource_entry(output_path: &str) -> (r: (String, String))
    ensures
        r.0@ == output_path@,
        r.1@ == guessed_media_type(output_path@),
{
    (to_string(output_path), media_type(output_path))
}

/// Where a local image of a chapter in `dir` goes in the EPUB; `None` for
/// remote and `data:` images and for an empty path.
pub open spec fn image_resource_path(dir: Option<Seq<char>>, dest: Seq<char>) -> Option<Seq<char>> {
    if spec_is_remote_url(dest) || seq_starts_with(dest, "data:"@) {
        None
    } else if without_fragment(dest).len() == 0 {
        None
    } else {
        Some(output_path(dir, without_fragment(dest)))
    }
}

/// The resource a chapter's image needs (see `image_resource_path`), with
/// its media type. The image's URL itself stays as it is.
pub fn rewrite_image(chapter_dir: Option<&str>, dest_url: &str) -> (r: Option<(String, String)>)
    ensures
        match r {
            Some((p, m)) => image_resource_path(opt_str(chapter_dir), dest_url@) == Some(p@)
                && m@ == guessed_media_type(p@),
            None => image_resource_path(opt_str(chapter_dir), dest_url@) is None,
        },
{
    let s = chars_of(dest_url);
    if is_remote_url(dest_url) || starts_with(&s, "data:") {
        return None;
    }
    let path = strip_fragment(dest_url);
    if path.as_str().is_empty() {
        return None;
    }
    let out = normalize_output_path(chapter_dir, path.as_str());
    proof {
        crate::text::lemma_first_index_from(dest_url@, '#', 0);
        crate::text::lemma_first_index_from(path@, '#', 0);
        assert(without_fragment(path@) == path@) by {
            match crate::text::first_index(path@, '#') {
                Some(k) => { assert(path@[k] == dest_url@[k]); },
                None => {},
            }
        }
    }
    Some(resource_entry(out.as_str()))
}

/// The resources already bundled into the EPUB.
pub struct ResourceSet {
    paths: Vec<String>,
}

impl ResourceSet {
    /// The paths bundled so far.
    pub closed spec fn contents(self) -> Set<Seq<char>> {
        Set::new(|p: Seq<char>| exists|i: int| 0 <= i < self.paths@.len() && self.paths@[i]@ == p)
    }

    /// No resource yet.
    pub fn new() -> (r: ResourceSet)
        ensures
            r.contents() == Set::<Seq<char>>::empty(),
    {
        let r = ResourceSet { paths: Vec::new() };
        assert(r.contents() =~= Set::<Seq<char>>::empty());
        r
    }

    /// Whether `path` is bundled.
    pub fn contains(&self, path: &str) -> (b: bool)
        ensures
            b == self.contents().contains(path@),
    {
        let p = to_string(path);
        let mut i: usize = 0;
        while i < self.paths.len()
            invariant
                i <= self.paths.len(),
                p@ == path@,
                forall|j: int| 0 <= j < i ==> self.paths@[j]@ != path@,
            decreases self.paths.len() - i,
        {
            if self.paths[i] == p {
                return true;
            }
            i += 1;
        }
        false
    }

    /// Records `path`; true when it was not bundled before (and has to be
    /// added to the EPUB now).
    pub fn insert(&mut self, path: &str) -> (b: bool)
        ensures
            b == !old(self).contents().contains(path@),
            final(self).contents() == old(self).contents().insert(path@),
    {
        if self.contains(path) {
            assert(self.contents() =~= self.contents().insert(path@));
            return false;
        }
        let ghost before = self.contents();
        let ghost old_paths = self.paths@;
        self.paths.push(to_string(path));
        assert forall|q: Seq<char>| #[trigger] self.contents().contains(q) == before.insert(path@).contains(q) by {
            let n = old_paths.len() as int;
            if q == path@ {
                assert(self.paths@[n]@ == q);
            }
            if before.contains(q) {
                let i = choose|i: int| 0 <= i < old_paths.len() && old_paths[i]@ == q;
                assert(self.paths@[i]@ == q);
            }
            if self.contents().contains(q) {
                let i = choose|i: int| 0 <= i < self.paths@.len() && self.paths@[i]@ == q;
                if i < n {
                    assert(old_paths[i]@ == q);
                }
            }
        }
        assert(self.contents() =~= before.insert(path@));
        true
    }
}


/// The HTML that `pulldown_cmark::html::push_html` renders for the events
/// `pulldown_cmark::Parser::new_ext` reads from `content` (smart
/// punctuation, tables, strikethrough, task lists and footnotes), the
/// destination of the `k`-th link replaced by `dests[k]` (a link past the
/// end of `dests` keeps its own).
pub uninterp spec fn pulldown_html(content: Seq<char>, dests: Seq<Seq<char>>) -> Seq<char>;

/// Parses `content` with `pulldown_cmark::Parser::new_ext`, gives the
/// links, in order, the destinations `dests` (a link past their end keeps
/// its own), and renders the events with `pulldown_cmark::html::push_html`.
#[verifier::external_body]
fn render_body(content: &str, dests: &Vec<String>) -> (r: String)
    ensures
        r@ == pulldown_html(content@, string_views(dests@)),
{
    let options = Options::ENABLE_SMART_PUNCTUATION | Options::ENABLE_TABLES
        | Options::ENABLE_STRIKETHROUGH | Options::ENABLE_TASKLISTS | Options::ENABLE_FOOTNOTES;
    let mut given = dests.iter();
    let events = Parser::new_ext(content, options).map(|event| match event {
        Event::Start(Tag::Link { link_type, dest_url, title, id }) => Event::Start(Tag::Link {
            link_type,
            dest_url: given.next().map(|d| CowStr::from(d.clone())).unwrap_or(dest_url),
            title,
            id,
        }),
        other => other,
    });
    let mut body = String::new();
    pulldown_cmark::html::push_html(&mut body, events);
    body
}

/// The destinations of the links among `events`, in order, each as the
/// EPUB reads it (see `epub_link`).
pub open spec fn epub_links(events: Seq<crate::markdown::MdEvent>) -> Seq<Seq<char>>
    decreases events.len(),
{
    if events.len() == 0 {
        seq![]
    } else {
        epub_links(events.drop_last()) + match events.last() {
            crate::markdown::MdEvent::Start(crate::markdown::MdTag::Link(d)) => seq![epub_link(d@)],
            _ => seq![],
        }
    }
}

/// The body of a chapter's page: the HTML of its Markdown, every link's
/// destination rewritten by `epub_link`.
pub open spec fn chapter_html(content: Seq<char>) -> Seq<char> {
    pulldown_html(content, epub_links(crate::markdown::markdown_events(content)))
}

/// The destinations of the images among `events`, in order.
pub open spec fn image_dests(events: Seq<crate::markdown::MdEvent>) -> Seq<Seq<char>>
    decreases events.len(),
{
    if events.len() == 0 {
        seq![]
    } else {
        image_dests(events.drop_last()) + match events.last() {
            crate::markdown::MdEvent::Start(crate::markdown::MdTag::Image(d)) => seq![d@],
            _ => seq![],
        }
    }
}

/// The resources that the images at `dests` add to a set of bundled
/// paths, each with its media type, and the set after them: a path is
/// added the first time only.
pub open spec fn new_resources(dir: Option<Seq<char>>, dests: Seq<Seq<char>>, set: Set<Seq<char>>) -> (Seq<(Seq<char>, Seq<char>)>, Set<Seq<char>>)
    decreases dests.len(),
{
    if dests.len() == 0 {
        (seq![], set)
    } else {
        let (added, s1) = new_resources(dir, dests.drop_last(), set);
        match image_resource_path(dir, dests.last()) {
            Some(p) => if s1.contains(p) {
                (added, s1)
            } else {
                (added.push((p, guessed_media_type(p))), s1.insert(p))
            },
            None => (added, s1),
        }
    }
}

/// A chapter's XHTML page (see `chapter_page`, its body `chapter_html`:
/// the chapter's HTML with each link's destination rewritten),
/// and the resources its images add to `resources` (see `new_resources`),
/// in order.
pub fn render_chapter(name: &str, content: &str, chapter_dir: Option<&str>, resources: &mut ResourceSet) -> (r: (String, Vec<(String, String)>))
    ensures
        r.0@ == chapter_page(name@, chapter_html(content@), opt_str(chapter_dir)),
        (pairs_view(r.1@), final(resources).contents()) == new_resources(
            opt_str(chapter_dir),
            image_dests(crate::markdown::markdown_events(content@)),
            old(resources).contents(),
        ),
{
    let events = crate::markdown::parse_markdown(content);
    let ghost dests = image_dests(events@);
    let ghost set0 = resources.contents();
    let mut added: Vec<(String, String)> = Vec::new();
    let mut links: Vec<String> = Vec::new();
    let mut i: usize = 0;
    assert(events@.take(0) =~= Seq::<crate::markdown::MdEvent>::empty());
    while i < events.len()
        invariant
            i <= events.len(),
            set0 == old(resources).contents(),
            string_views(links@) == epub_links(events@.take(i as int)),
            (pairs_view(added@), resources.contents()) == new_resources(opt_str(chapter_dir), image_dests(events@.take(i as int)), set0),
        decreases events.len() - i,
    {
        let ghost t = events@.take(i + 1);
        assert(t.drop_last() =~= events@.take(i as int));
        match &events[i] {
            crate::markdown::MdEvent::Start(crate::markdown::MdTag::Image(dest)) => {
                let ghost ds = image_dests(events@.take(i as int));
                assert(image_dests(t) =~= ds.push(dest@));
                assert(image_dests(t).drop_last() =~= ds);
                match rewrite_image(chapter_dir, dest.as_str()) {
                    Some((p, m)) => {
                        if resources.insert(p.as_str()) {
                            let ghost before = added@;
                            added.push((p, m));
                            assert(pairs_view(added@) =~= pairs_view(before).push((p@, m@)));
                        }
                    },
                    None => {},
                }
            },
            crate::markdown::MdEvent::Start(crate::markdown::MdTag::Link(dest)) => {
                assert(image_dests(t) =~= image_dests(events@.take(i as int)));
                let ghost before = links@;
                links.push(rewrite_link(chapter_dir, dest.as_str()));
                assert(string_views(links@) =~= string_views(before).push(links@[before.len() as int]@));
            },
            _ => {
                assert(image_dests(t) =~= image_dests(events@.take(i as int)));
            },
        }
        i += 1;
    }
    assert(events@.take(events.len() as int) =~= events@);
    let body = render_body(content, &links);
    (chapter_xhtml(name, body.as_str(), chapter_dir), added)
}

} // verus!
