//! The rendering of a chapter's Markdown events into Typst markup, as a
//! state machine over the events, and the assembly of the whole book.

use vstd::prelude::*;
use crate::book::ChapterInfo;
use crate::markdown::{markdown_events, parse_markdown, MdEvent, MdTag, MdTagEnd};
use crate::paths::{parent_dir, typst_label, with_html_extension};
use crate::text::{
    chars_of, decimal, find_char, push_char, push_decimal, push_str, seq_starts_with, slice_to_vec,
    split_once, starts_with, string_of, trim, trim_chars, trim_end, trim_end_chars,
};
use crate::typst::{
    admonish_accent, admonish_colors, admonish_fill, admonish_info, apply_template, capitalize,
    capitalized, chapter_context, copies_view, escape_typst, escaped_typst, html_copy, html_markup,
    image_copy, image_markup, invisible_heading_markup, link_start_markup, markdown_heading_level,
    number_view, opt_view, parse_admonish_info, raw_markup, render_html, render_image,
    render_invisible_chapter_heading, render_link_start, render_raw, render_table_start,
    table_start_markup, templated, typst_heading_level, ImageCopy, PdfConfig, TypstChapter,
};

verus! {

/// What the events inside an element are part of.
#[derive(Clone, Copy, Debug)]
pub enum InlineState {
    Heading,
    Image,
    TableHead,
}

/// Everything the rendering of one chapter reads: the PDF settings, the
/// chapter's name and number, and its link context.
pub struct TypstEnv {
    pub admonish: bool,
    pub section_number: bool,
    pub name: Seq<char>,
    pub number: Option<Seq<u32>>,
    pub dir: Option<Seq<char>>,
    pub label: Seq<char>,
    pub fragment: bool,
}

/// The state of the rendering after some of a chapter's events.
#[verifier::ext_equal]
pub struct TypstRunView {
    pub output: Seq<char>,
    pub copies: Seq<crate::typst::CopyV>,
    /// Language and text of the code block being read.
    pub code_block: Option<(Seq<char>, Seq<char>)>,
    /// Kind, title and Markdown of the admonition being read.
    pub admonish: Option<(Seq<char>, Seq<char>, Seq<char>)>,
    pub stack: Seq<InlineState>,
    pub wrote_heading: bool,
}

pub open spec fn env_of(cfg: PdfConfig, chapter: ChapterInfo, ctx: TypstChapter) -> TypstEnv {
    TypstEnv {
        admonish: cfg.admonish,
        section_number: cfg.section_number,
        name: chapter.name@,
        number: number_view(chapter.number),
        dir: opt_view(ctx.chapter_rel_dir),
        label: ctx.label@,
        fragment: ctx.is_fragment,
    }
}

/// The environment of an admonition's Markdown: default settings, a chapter
/// named `fragment` at `fragment.md` without a number.
pub open spec fn fragment_env() -> TypstEnv {
    TypstEnv {
        admonish: false,
        section_number: false,
        name: "fragment"@,
        number: None,
        dir: parent_dir("fragment.md"@),
        label: typst_label(with_html_extension("fragment.md"@)),
        fragment: true,
    }
}

pub open spec fn initial_run() -> TypstRunView {
    TypstRunView {
        output: seq![],
        copies: seq![],
        code_block: None,
        admonish: None,
        stack: seq![],
        wrote_heading: false,
    }
}

/// The stack without its top element (unchanged when empty).
pub open spec fn pop(s: Seq<InlineState>) -> Seq<InlineState> {
    if s.len() > 0 { s.drop_last() } else { s }
}

pub open spec fn is_image_state(s: InlineState) -> bool {
    s matches InlineState::Image
}

/// The language of a code block: the info string up to its first comma,
/// trimmed.
pub open spec fn code_lang(info: Option<String>) -> Seq<char> {
    match info {
        None => seq![],
        Some(i) => trim(
            match split_once(i@, ',') {
                Some((a, _)) => a,
                None => i@,
            },
        ),
    }
}

/// The Typst box of an admonition whose Markdown became `body`.
pub open spec fn admonish_markup(kind: Seq<char>, title: Seq<char>, body: Seq<char>) -> Seq<char> {
    let title = if title.len() == 0 { capitalized(kind) } else { title };
    "#block(width: 100%, fill: rgb(\""@ + admonish_fill(kind)
        + "\"), inset: 10pt, radius: 4pt, stroke: (left: 3pt + rgb(\""@ + admonish_accent(kind)
        + "\")))[\n#text(fill: rgb(\""@ + admonish_accent(kind) + "\"), weight: \"bold\")["@
        + escaped_typst(title) + "]\n\n"@ + trim_end(body) + "\n]\n\n"@
}

pub open spec fn with_output(st: TypstRunView, s: Seq<char>) -> TypstRunView {
    TypstRunView { output: st.output + s, ..st }
}

/// The rendering of one event outside code blocks and admonitions.
pub open spec fn typst_event(env: TypstEnv, st: TypstRunView, e: MdEvent) -> TypstRunView {
    match e {
        MdEvent::Start(tag) => match tag {
            MdTag::Paragraph => st,
            MdTag::Heading(level) => TypstRunView {
                output: st.output + "#heading(level: "@
                    + decimal(typst_heading_level(env.section_number, env.number, level as nat))
                    + ", outlined: false, bookmarked: false"@ + ")["@,
                stack: st.stack.push(InlineState::Heading),
                ..st
            },
            MdTag::Emphasis => with_output(st, "#emph["@),
            MdTag::Strong => with_output(st, "#strong["@),
            MdTag::Strikethrough => with_output(st, "#strike["@),
            MdTag::BlockQuote => with_output(st, "#quote(block: true)[\n"@),
            MdTag::Table(a) => with_output(st, table_start_markup(a@)),
            MdTag::TableHead => TypstRunView { stack: st.stack.push(InlineState::TableHead), ..st },
            MdTag::TableRow => st,
            MdTag::TableCell => with_output(st, "["@),
            MdTag::List(start) => with_output(st, if (start is Some) { "#enum(\n"@ } else { "#list(\n"@ }),
            MdTag::Item => with_output(st, "["@),
            MdTag::CodeBlock(info) => {
                let lang = code_lang(info);
                if env.admonish && seq_starts_with(lang, "admonish"@) {
                    let (kind, title) = admonish_info(lang);
                    TypstRunView { admonish: Some((kind, title, seq![])), ..st }
                } else {
                    TypstRunView { code_block: Some((lang, seq![])), ..st }
                }
            },
            MdTag::Link(dest) => with_output(st, link_start_markup(env.dir, dest@)),
            MdTag::Image(dest) => TypstRunView {
                output: st.output + image_markup(env.dir, dest@),
                copies: st.copies + image_copy(env.dir, dest@, env.fragment),
                stack: st.stack.push(InlineState::Image),
                ..st
            },
            MdTag::Other => st,
        },
        MdEvent::End(tag) => match tag {
            MdTagEnd::Paragraph => with_output(st, "\n\n"@),
            MdTagEnd::Heading(level) => {
                let lvl = typst_heading_level(env.section_number, env.number, level as nat);
                let invisible = if !st.wrote_heading {
                    invisible_heading_markup(env.section_number, env.name, env.number, env.label, lvl)
                } else {
                    seq![]
                };
                TypstRunView {
                    output: st.output + "]\n"@ + invisible + "\n"@,
                    stack: pop(st.stack),
                    wrote_heading: true,
                    ..st
                }
            },
            MdTagEnd::Emphasis => with_output(st, "]"@),
            MdTagEnd::Strong => with_output(st, "]"@),
            MdTagEnd::Strikethrough => with_output(st, "]"@),
            MdTagEnd::BlockQuote => with_output(st, "\n]\n\n"@),
            MdTagEnd::Table => with_output(st, ")\n\n"@),
            MdTagEnd::TableHead => TypstRunView { stack: pop(st.stack), ..st },
            MdTagEnd::TableRow => with_output(st, "\n"@),
            MdTagEnd::TableCell => with_output(st, "],\n"@),
            MdTagEnd::List => with_output(st, ")\n\n"@),
            MdTagEnd::Item => with_output(st, "],\n"@),
            MdTagEnd::Link => with_output(st, "]"@),
            MdTagEnd::Image => TypstRunView { output: st.output + "\n"@, stack: pop(st.stack), ..st },
            MdTagEnd::CodeBlock => st,
            MdTagEnd::Other => st,
        },
        MdEvent::Code(t) => with_output(st, raw_markup(t@, false, None)),
        MdEvent::Text(t) => if (exists|i: int| 0 <= i < st.stack.len() && is_image_state(#[trigger] st.stack[i])) {
            st
        } else if st.stack.len() > 0 && (st.stack.last() matches InlineState::TableHead) {
            with_output(st, "#strong["@ + escaped_typst(t@) + "]"@)
        } else {
            with_output(st, escaped_typst(t@))
        },
        MdEvent::SoftBreak => with_output(st, "\n"@),
        MdEvent::HardBreak => with_output(st, "\\\n"@),
        MdEvent::Rule => with_output(st, "\n#line(length: 100%)\n\n"@),
        MdEvent::Html(h) => TypstRunView {
            output: st.output + html_markup(env.dir, h@),
            copies: st.copies + html_copy(env.dir, h@, env.fragment),
            ..st
        },
        MdEvent::InlineHtml(h) => TypstRunView {
            output: st.output + html_markup(env.dir, h@),
            copies: st.copies + html_copy(env.dir, h@, env.fragment),
            ..st
        },
        MdEvent::FootnoteReference(n) => with_output(st, "#super["@ + escaped_typst(n@) + "]"@),
        MdEvent::TaskListMarker(checked) => with_output(
            st,
            raw_markup(if checked { "[x]"@ } else { "[ ]"@ }, false, None) + " "@,
        ),
        MdEvent::Other => st,
    }
}

/// The rendering of one event.
pub open spec fn typst_step(env: TypstEnv, st: TypstRunView, e: MdEvent) -> TypstRunView
    decreases (if env.admonish { 1int } else { 0int }), 0int,
{
    match st.admonish {
        Some((kind, title, body)) => match e {
            MdEvent::End(MdTagEnd::CodeBlock) => if env.admonish {
                let frag = typst_run(fragment_env(), markdown_events(body), initial_run());
                TypstRunView {
                    output: st.output + admonish_markup(kind, title, frag.output),
                    copies: st.copies + frag.copies,
                    admonish: None,
                    ..st
                }
            } else {
                st
            },
            MdEvent::Text(t) => TypstRunView { admonish: Some((kind, title, body + t@)), ..st },
            MdEvent::SoftBreak => TypstRunView { admonish: Some((kind, title, body.push('\n'))), ..st },
            MdEvent::HardBreak => TypstRunView { admonish: Some((kind, title, body.push('\n'))), ..st },
            _ => st,
        },
        None => match st.code_block {
            Some((lang, code)) => match e {
                MdEvent::End(MdTagEnd::CodeBlock) => TypstRunView {
                    output: st.output + raw_markup(code, true, if lang.len() == 0 { None } else { Some(lang) })
                        + "\n\n"@,
                    code_block: None,
                    ..st
                },
                MdEvent::Text(t) => TypstRunView { code_block: Some((lang, code + t@)), ..st },
                MdEvent::SoftBreak => TypstRunView { code_block: Some((lang, code.push('\n'))), ..st },
                MdEvent::HardBreak => TypstRunView { code_block: Some((lang, code.push('\n'))), ..st },
                _ => st,
            },
            None => typst_event(env, st, e),
        },
    }
}

/// The state after rendering `events` from `st`.
pub open spec fn typst_run(env: TypstEnv, events: Seq<MdEvent>, st: TypstRunView) -> TypstRunView
    decreases (if env.admonish { 1int } else { 0int }), events.len(),
{
    if events.len() == 0 {
        st
    } else {
        typst_step(env, typst_run(env, events.drop_last(), st), events.last())
    }
}


/// The state of the rendering of one chapter.
struct TypstRun {
    output: String,
    copies: Vec<ImageCopy>,
    code_block: Option<(String, String)>,
    admonish: Option<(String, String, String)>,
    inline_stack: Vec<InlineState>,
    wrote_invisible_heading: bool,
}

impl TypstRun {
    closed spec fn rv(self) -> TypstRunView {
        TypstRunView {
            output: self.output@,
            copies: copies_view(self.copies@),
            code_block: match self.code_block {
                Some((l, c)) => Some((l@, c@)),
                None => None,
            },
            admonish: match self.admonish {
                Some((k, t, b)) => Some((k@, t@, b@)),
                None => None,
            },
            stack: self.inline_stack@,
            wrote_heading: self.wrote_invisible_heading,
        }
    }

    fn new() -> (r: TypstRun)
        ensures
            r.rv() == initial_run(),
    {
        let r = TypstRun {
            output: String::new(),
            copies: Vec::new(),
            code_block: None,
            admonish: None,
            inline_stack: Vec::new(),
            wrote_invisible_heading: false,
        };
        assert(copies_view(r.copies@) =~= seq![]);
        r
    }

    fn stack_has_image(&self) -> (b: bool)
        ensures
            b == (exists|i: int| 0 <= i < self.inline_stack@.len() && is_image_state(#[trigger] self.inline_stack@[i])),
    {
        let mut i: usize = 0;
        while i < self.inline_stack.len()
            invariant
                i <= self.inline_stack.len(),
                forall|j: int| 0 <= j < i ==> !is_image_state(#[trigger] self.inline_stack@[j]),
            decreases self.inline_stack.len() - i,
        {
            match self.inline_stack[i] {
                InlineState::Image => {
                    assert(is_image_state(self.inline_stack@[i as int]));
                    return true;
                },
                _ => {},
            }
            i += 1;
        }
        false
    }

    fn stack_top_is_table_head(&self) -> (b: bool)
        ensures
            b == (self.inline_stack@.len() > 0 && (self.inline_stack@.last() matches InlineState::TableHead)),
    {
        if self.inline_stack.len() == 0 {
            return false;
        }
        match self.inline_stack[self.inline_stack.len() - 1] {
            InlineState::TableHead => true,
            _ => false,
        }
    }

    fn pop_stack(&mut self)
        ensures
            final(self).rv() == (TypstRunView { stack: pop(old(self).rv().stack), ..old(self).rv() }),
    {
        if self.inline_stack.len() > 0 {
            self.inline_stack.pop();
        }
    }

    /// The rendering of one event outside code blocks and admonitions.
    fn event(&mut self, event: &MdEvent, cfg: &PdfConfig, chapter: &ChapterInfo, ctx: &TypstChapter)
        requires
            old(self).admonish is None,
            old(self).code_block is None,
            crate::markdown::event_level_ok(*event),
            chapter.number matches Some(n) ==> n@.len() + 6 <= usize::MAX,
        ensures
            final(self).rv() == typst_event(env_of(*cfg, *chapter, *ctx), old(self).rv(), *event),
            final(self).admonish is Some ==> cfg.admonish,
    {
        let ghost st = self.rv();
        let ghost env = env_of(*cfg, *chapter, *ctx);
        let dir: Option<&str> = match &ctx.chapter_rel_dir {
            Some(d) => Some(d.as_str()),
            None => None,
        };
        match event {
            MdEvent::Start(tag) => match tag {
                MdTag::Paragraph => {},
                MdTag::Heading(level) => {
                    self.inline_stack.push(InlineState::Heading);
                    let l = markdown_heading_level(cfg, chapter, *level);
                    push_str(&mut self.output, "#heading(level: ");
                    push_decimal(&mut self.output, l as u64);
                    push_str(&mut self.output, ", outlined: false, bookmarked: false");
                    push_str(&mut self.output, ")[");
                },
                MdTag::Emphasis => push_str(&mut self.output, "#emph["),
                MdTag::Strong => push_str(&mut self.output, "#strong["),
                MdTag::Strikethrough => push_str(&mut self.output, "#strike["),
                MdTag::BlockQuote => push_str(&mut self.output, "#quote(block: true)[\n"),
                MdTag::Table(a) => render_table_start(&mut self.output, a.as_slice()),
                MdTag::TableHead => self.inline_stack.push(InlineState::TableHead),
                MdTag::TableRow => {},
                MdTag::TableCell => push_str(&mut self.output, "["),
                MdTag::List(start) => {
                    if start.is_some() {
                        push_str(&mut self.output, "#enum(\n");
                    } else {
                        push_str(&mut self.output, "#list(\n");
                    }
                },
                MdTag::Item => push_str(&mut self.output, "["),
                MdTag::CodeBlock(info) => {
                    let lang = code_lang_of(info);
                    let lv = chars_of(lang.as_str());
                    if cfg.admonish && starts_with(&lv, "admonish") {
                        let (kind, title) = parse_admonish_info(lang.as_str());
                        self.admonish = Some((kind, title, String::new()));
                    } else {
                        self.code_block = Some((lang, String::new()));
                    }
                },
                MdTag::Link(dest) => render_link_start(&mut self.output, ctx, dest.as_str()),
                MdTag::Image(dest) => {
                    self.inline_stack.push(InlineState::Image);
                    render_image(&mut self.output, &mut self.copies, ctx, dest.as_str());
                },
                MdTag::Other => {},
            },
            MdEvent::End(tag) => match tag {
                MdTagEnd::Paragraph => push_str(&mut self.output, "\n\n"),
                MdTagEnd::Heading(level) => {
                    self.pop_stack();
                    let l = markdown_heading_level(cfg, chapter, *level);
                    push_str(&mut self.output, "]\n");
                    let ghost mid = self.output@;
                    if !self.wrote_invisible_heading {
                        render_invisible_chapter_heading(&mut self.output, cfg, chapter, ctx, l);
                        self.wrote_invisible_heading = true;
                    }
                    push_char(&mut self.output, '\n');
                    proof { reveal_strlit("\n"); }
                },
                MdTagEnd::Emphasis => push_str(&mut self.output, "]"),
                MdTagEnd::Strong => push_str(&mut self.output, "]"),
                MdTagEnd::Strikethrough => push_str(&mut self.output, "]"),
                MdTagEnd::BlockQuote => push_str(&mut self.output, "\n]\n\n"),
                MdTagEnd::Table => push_str(&mut self.output, ")\n\n"),
                MdTagEnd::TableHead => self.pop_stack(),
                MdTagEnd::TableRow => push_str(&mut self.output, "\n"),
                MdTagEnd::TableCell => push_str(&mut self.output, "],\n"),
                MdTagEnd::List => push_str(&mut self.output, ")\n\n"),
                MdTagEnd::Item => push_str(&mut self.output, "],\n"),
                MdTagEnd::Link => push_str(&mut self.output, "]"),
                MdTagEnd::Image => {
                    self.pop_stack();
                    push_str(&mut self.output, "\n");
                },
                MdTagEnd::CodeBlock => {},
                MdTagEnd::Other => {},
            },
            MdEvent::Code(t) => render_raw(&mut self.output, t.as_str(), false, None),
            MdEvent::Text(t) => {
                if !self.stack_has_image() {
                    if self.stack_top_is_table_head() {
                        push_str(&mut self.output, "#strong[");
                        let e = escape_typst(t.as_str());
                        push_str(&mut self.output, e.as_str());
                        push_str(&mut self.output, "]");
                    } else {
                        let e = escape_typst(t.as_str());
                        push_str(&mut self.output, e.as_str());
                    }
                }
            },
            MdEvent::SoftBreak => push_str(&mut self.output, "\n"),
            MdEvent::HardBreak => push_str(&mut self.output, "\\\n"),
            MdEvent::Rule => push_str(&mut self.output, "\n#line(length: 100%)\n\n"),
            MdEvent::Html(h) => render_html(&mut self.output, &mut self.copies, ctx, h.as_str()),
            MdEvent::InlineHtml(h) => render_html(&mut self.output, &mut self.copies, ctx, h.as_str()),
            MdEvent::FootnoteReference(n) => {
                push_str(&mut self.output, "#super[");
                let e = escape_typst(n.as_str());
                push_str(&mut self.output, e.as_str());
                push_str(&mut self.output, "]");
            },
            MdEvent::TaskListMarker(checked) => {
                if *checked {
                    render_raw(&mut self.output, "[x]", false, None);
                } else {
                    render_raw(&mut self.output, "[ ]", false, None);
                }
                push_char(&mut self.output, ' ');
                proof { reveal_strlit(" "); }
            },
            MdEvent::Other => {},
        }
        assert(self.rv() =~= typst_event(env, st, *event));
    }
}

/// The language of a code block (see `code_lang`).
pub fn code_lang_of(info: &Option<String>) -> (r: String)
    ensures
        r@ == code_lang(*info),
{
    match info {
        None => String::new(),
        Some(i) => {
            let s = chars_of(i.as_str());
            let first = match find_char(&s, ',') {
                Some(k) => slice_to_vec(&s, 0, k),
                None => slice_to_vec(&s, 0, s.len()),
            };
            assert(s@.subrange(0, s@.len() as int) =~= s@);
            string_of(&trim_chars(&first))
        },
    }
}


impl TypstRun {
    /// The rendering of one event.
    fn step(&mut self, event: &MdEvent, cfg: &PdfConfig, chapter: &ChapterInfo, ctx: &TypstChapter)
        requires
            old(self).admonish is Some ==> cfg.admonish,
            crate::markdown::event_level_ok(*event),
            chapter.number matches Some(n) ==> n@.len() + 6 <= usize::MAX,
        ensures
            final(self).rv() == typst_step(env_of(*cfg, *chapter, *ctx), old(self).rv(), *event),
            final(self).admonish is Some ==> cfg.admonish,
        decreases (if cfg.admonish { 1int } else { 0int }), 3int,
    {
        let ghost st = self.rv();
        let ghost env = env_of(*cfg, *chapter, *ctx);
        if self.admonish.is_some() {
            match event {
                MdEvent::End(MdTagEnd::CodeBlock) => {
                    let taken = self.admonish.take();
                    match taken {
                        Some((kind, title, body)) => {
                            render_admonish(&mut self.output, &mut self.copies, kind.as_str(), title.as_str(), body.as_str());
                        },
                        None => {},
                    }
                },
                MdEvent::Text(t) => {
                    let taken = self.admonish.take();
                    match taken {
                        Some((kind, title, body)) => {
                            let mut body = body;
                            push_str(&mut body, t.as_str());
                            self.admonish = Some((kind, title, body));
                        },
                        None => {},
                    }
                },
                MdEvent::SoftBreak | MdEvent::HardBreak => {
                    let taken = self.admonish.take();
                    match taken {
                        Some((kind, title, body)) => {
                            let mut body = body;
                            push_char(&mut body, '\n');
                            self.admonish = Some((kind, title, body));
                        },
                        None => {},
                    }
                },
                _ => {},
            }
            assert(self.rv() =~= typst_step(env, st, *event));
            return;
        }
        if self.code_block.is_some() {
            match event {
                MdEvent::End(MdTagEnd::CodeBlock) => {
                    let taken = self.code_block.take();
                    match taken {
                        Some((lang, code)) => {
                            if lang.as_str().is_empty() {
                                render_raw(&mut self.output, code.as_str(), true, None);
                            } else {
                                render_raw(&mut self.output, code.as_str(), true, Some(lang.as_str()));
                            }
                            push_str(&mut self.output, "\n\n");
                        },
                        None => {},
                    }
                },
                MdEvent::Text(t) => {
                    let taken = self.code_block.take();
                    match taken {
                        Some((lang, code)) => {
                            let mut code = code;
                            push_str(&mut code, t.as_str());
                            self.code_block = Some((lang, code));
                        },
                        None => {},
                    }
                },
                MdEvent::SoftBreak | MdEvent::HardBreak => {
                    let taken = self.code_block.take();
                    match taken {
                        Some((lang, code)) => {
                            let mut code = code;
                            push_char(&mut code, '\n');
                            self.code_block = Some((lang, code));
                        },
                        None => {},
                    }
                },
                _ => {},
            }
            assert(self.rv() =~= typst_step(env, st, *event));
            return;
        }
        self.event(event, cfg, chapter, ctx);
    }
}

/// Renders a chapter's Markdown events into Typst markup; the local
/// images it shows are listed for copying. This is `typst_run` from the
/// initial state.
pub fn typst_events(events: &[MdEvent], cfg: &PdfConfig, chapter: &ChapterInfo, ctx: &TypstChapter)
    -> (r: (String, Vec<ImageCopy>))
    requires
        crate::markdown::heading_levels_ok(events@),
        chapter.number matches Some(n) ==> n@.len() + 6 <= usize::MAX,
    ensures
        r.0@ == typst_run(env_of(*cfg, *chapter, *ctx), events@, initial_run()).output,
        copies_view(r.1@) == typst_run(env_of(*cfg, *chapter, *ctx), events@, initial_run()).copies,
    decreases (if cfg.admonish { 1int } else { 0int }), 4int,
{
    let ghost env = env_of(*cfg, *chapter, *ctx);
    let mut run = TypstRun::new();
    let mut i: usize = 0;
    while i < events.len()
        invariant
            i <= events.len(),
            run.rv() == typst_run(env, events@.take(i as int), initial_run()),
            run.admonish is Some ==> cfg.admonish,
            crate::markdown::heading_levels_ok(events@),
            chapter.number matches Some(n) ==> n@.len() + 6 <= usize::MAX,
            env == env_of(*cfg, *chapter, *ctx),
        decreases events.len() - i,
    {
        proof {
            let t = events@.take(i + 1);
            assert(t.drop_last() =~= events@.take(i as int));
            assert(crate::markdown::event_level_ok(events@[i as int]));
        }
        run.step(&events[i], cfg, chapter, ctx);
        i += 1;
    }
    assert(events@.take(events.len() as int) =~= events@);
    (run.output, run.copies)
}

/// Renders a chapter's Markdown into Typst markup (see `typst_events`).
pub fn markdown_to_typst(cfg: &PdfConfig, chapter: &ChapterInfo, ctx: &TypstChapter) -> (r: (String, Vec<ImageCopy>))
    requires
        chapter.number matches Some(n) ==> n@.len() + 6 <= usize::MAX,
    ensures
        r.0@ == typst_run(env_of(*cfg, *chapter, *ctx), markdown_events(chapter.content@), initial_run()).output,
        copies_view(r.1@) == typst_run(
            env_of(*cfg, *chapter, *ctx),
            markdown_events(chapter.content@),
            initial_run(),
        ).copies,
    decreases (if cfg.admonish { 1int } else { 0int }), 5int,
{
    let events = parse_markdown(chapter.content.as_str());
    typst_events(events.as_slice(), cfg, chapter, ctx)
}

/// Renders the Markdown inside an admonition (see `fragment_env`).
pub fn markdown_to_typst_fragment(markdown: &str) -> (r: (String, Vec<ImageCopy>))
    ensures
        r.0@ == typst_run(fragment_env(), markdown_events(markdown@), initial_run()).output,
        copies_view(r.1@) == typst_run(fragment_env(), markdown_events(markdown@), initial_run()).copies,
    decreases 1int, 1int,
{
    let chapter = ChapterInfo {
        name: string_of(&chars_of("fragment")),
        content: string_of(&chars_of(markdown)),
        number: None,
        source_path: Some(string_of(&chars_of("fragment.md"))),
        path: Some(string_of(&chars_of("fragment.md"))),
    };
    let base = chapter_context(&chapter);
    let ctx = TypstChapter { chapter_rel_dir: base.chapter_rel_dir, label: base.label, is_fragment: true };
    let cfg = PdfConfig::default_config();
    assert(env_of(cfg, chapter, ctx) == fragment_env());
    markdown_to_typst(&cfg, &chapter, &ctx)
}

/// Appends the Typst box of an admonition of `kind` with `title` (its
/// capitalised kind when empty) around the rendering of `markdown`.
pub fn render_admonish(output: &mut String, copies: &mut Vec<ImageCopy>, kind: &str, title: &str, markdown: &str)
    ensures
        final(output)@ == old(output)@ + admonish_markup(
            kind@,
            title@,
            typst_run(fragment_env(), markdown_events(markdown@), initial_run()).output,
        ),
        copies_view(final(copies)@) == copies_view(old(copies)@) + typst_run(
            fragment_env(),
            markdown_events(markdown@),
            initial_run(),
        ).copies,
    decreases 1int, 2int,
{
    let ghost o = output@;
    let ghost oc = copies_view(copies@);
    let (fill, accent) = admonish_colors(kind);
    let (body, body_copies) = markdown_to_typst_fragment(markdown);
    let t = chars_of(title);
    let title = if t.len() == 0 { capitalize(kind) } else { string_of(&t) };
    push_str(output, "#block(width: 100%, fill: rgb(\"");
    push_str(output, fill);
    push_str(output, "\"), inset: 10pt, radius: 4pt, stroke: (left: 3pt + rgb(\"");
    push_str(output, accent);
    push_str(output, "\")))[\n#text(fill: rgb(\"");
    push_str(output, accent);
    push_str(output, "\"), weight: \"bold\")[");
    let e = escape_typst(title.as_str());
    push_str(output, e.as_str());
    push_str(output, "]\n\n");
    let trimmed = trim_end_chars(&chars_of(body.as_str()));
    crate::text::push_chars(output, &trimmed);
    push_str(output, "\n]\n\n");
    assert(output@ =~= o + admonish_markup(kind@, title@, body@)) by {
        assert(title@ == (if t@.len() == 0 { capitalized(kind@) } else { t@ }));
    }
    let mut k: usize = 0;
    let ghost c0 = copies_view(copies@);
    while k < body_copies.len()
        invariant
            k <= body_copies.len(),
            copies_view(copies@) == c0 + copies_view(body_copies@).take(k as int),
        decreases body_copies.len() - k,
    {
        let ghost before = copies@;
        let item = body_copies[k].clone_copy();
        copies.push(item);
        assert(copies@ == before.push(item));
        assert(copies_view(copies@) =~= copies_view(before).push(copies_view(body_copies@)[k as int]));
        k += 1;
        assert(copies_view(copies@) =~= c0 + copies_view(body_copies@).take(k as int));
    }
    assert(copies_view(body_copies@).take(body_copies.len() as int) =~= copies_view(body_copies@));
}


/// The rendering environment of a chapter of the book.
pub open spec fn chapter_env(cfg: PdfConfig, chapter: ChapterInfo) -> TypstEnv {
    TypstEnv {
        admonish: cfg.admonish,
        section_number: cfg.section_number,
        name: chapter.name@,
        number: number_view(chapter.number),
        dir: crate::typst::chapter_dir_of(chapter.source_path),
        label: crate::typst::chapter_label(chapter.source_path),
        fragment: false,
    }
}

/// The rendering of a chapter of the book.
pub open spec fn chapter_run(cfg: PdfConfig, chapter: ChapterInfo) -> TypstRunView {
    typst_run(chapter_env(cfg, chapter), markdown_events(chapter.content@), initial_run())
}

/// What follows each chapter: a weak page break, unless the settings
/// switch page breaks between chapters off.
pub open spec fn chapter_end(cfg: PdfConfig) -> Seq<char> {
    if cfg.chapter_no_pagebreak { seq![] } else { "\n#pagebreak(weak: true)\n\n"@ }
}

/// The Typst content of the chapters, each followed by `chapter_end`.
pub open spec fn book_content(cfg: PdfConfig, chapters: Seq<ChapterInfo>) -> Seq<char>
    decreases chapters.len(),
{
    if chapters.len() == 0 {
        seq![]
    } else {
        book_content(cfg, chapters.drop_last()) + chapter_run(cfg, chapters.last()).output
            + chapter_end(cfg)
    }
}

/// The image copies of the chapters, in order.
pub open spec fn book_copies(cfg: PdfConfig, chapters: Seq<ChapterInfo>) -> Seq<crate::typst::CopyV>
    decreases chapters.len(),
{
    if chapters.len() == 0 {
        seq![]
    } else {
        book_copies(cfg, chapters.drop_last()) + chapter_run(cfg, chapters.last()).copies
    }
}

/// A chapter number short enough for the heading arithmetic.
pub open spec fn number_fits(chapter: ChapterInfo) -> bool {
    chapter.number matches Some(n) ==> n@.len() + 6 <= usize::MAX
}

/// The Typst source of the book: the template filled with the title
/// (`mdBook` when the book has none) and the chapters; with the local images
/// to copy.
pub fn render_typst(template: &str, title: Option<&str>, chapters: &[ChapterInfo], cfg: &PdfConfig)
    -> (r: (String, Vec<ImageCopy>))
    requires
        forall|i: int| 0 <= i < chapters@.len() ==> number_fits(#[trigger] chapters@[i]),
    ensures
        r.0@ == templated(
            template@,
            match title {
                Some(t) => t@,
                None => "mdBook"@,
            },
            book_content(*cfg, chapters@),
        ),
        copies_view(r.1@) == book_copies(*cfg, chapters@),
{
    let mut content = String::new();
    let mut copies: Vec<ImageCopy> = Vec::new();
    let mut i: usize = 0;
    assert(copies_view(copies@) =~= seq![]);
    while i < chapters.len()
        invariant
            i <= chapters.len(),
            forall|j: int| 0 <= j < chapters@.len() ==> number_fits(#[trigger] chapters@[j]),
            content@ == book_content(*cfg, chapters@.take(i as int)),
            copies_view(copies@) == book_copies(*cfg, chapters@.take(i as int)),
        decreases chapters.len() - i,
    {
        let chapter = &chapters[i];
        assert(number_fits(chapters@[i as int]));
        let ctx = chapter_context(chapter);
        let (text, chapter_copies) = markdown_to_typst(cfg, chapter, &ctx);
        assert(env_of(*cfg, *chapter, ctx) == chapter_env(*cfg, *chapter));
        push_str(&mut content, text.as_str());
        if !cfg.chapter_no_pagebreak {
            push_str(&mut content, "\n#pagebreak(weak: true)\n\n");
        }
        let ghost c0 = copies_view(copies@);
        let mut k: usize = 0;
        while k < chapter_copies.len()
            invariant
                k <= chapter_copies.len(),
                copies_view(copies@) == c0 + copies_view(chapter_copies@).take(k as int),
            decreases chapter_copies.len() - k,
        {
            let ghost before = copies@;
            let item = chapter_copies[k].clone_copy();
            copies.push(item);
            assert(copies@ == before.push(item));
            assert(copies_view(copies@) =~= copies_view(before).push(copies_view(chapter_copies@)[k as int]));
            k += 1;
            assert(copies_view(copies@) =~= c0 + copies_view(chapter_copies@).take(k as int));
        }
        proof {
            assert(copies_view(chapter_copies@).take(chapter_copies.len() as int) =~= copies_view(chapter_copies@));
            let t = chapters@.take(i + 1);
            assert(t.drop_last() =~= chapters@.take(i as int));
            assert(t.last() == chapters@[i as int]);
        }
        i += 1;
    }
    assert(chapters@.take(chapters.len() as int) =~= chapters@);
    let t = match title {
        Some(t) => string_of(&chars_of(t)),
        None => string_of(&chars_of("mdBook")),
    };
    (apply_template(template, t.as_str(), content.as_str()), copies)
}

/// Whether text at this point of a chapter is written out plainly: not in
/// a code block, an admonition, an image's alternative text or a table's
/// header row.
pub open spec fn plain_text_point(s: TypstRunView) -> bool {
    &&& s.admonish is None
    &&& s.code_block is None
    &&& forall|i: int| 0 <= i < s.stack.len() ==> !is_image_state(#[trigger] s.stack[i])
    &&& !(s.stack.len() > 0 && (s.stack.last() matches InlineState::TableHead))
}

/// Strong emphasis in the PDF. Outside code blocks and admonitions, the
/// start of strong text writes exactly `#strong[` and changes nothing
/// else, and its end writes exactly `]`. So strong text where text is
/// written plainly comes out as `#strong[`, the text escaped, and `]`.
pub proof fn lemma_typst_strong(env: TypstEnv, events: Seq<MdEvent>, st0: TypstRunView, t: String)
    ensures
        ({
            let s = typst_run(env, events, st0);
            s.admonish is None && s.code_block is None ==> typst_run(env, events.push(MdEvent::Start(MdTag::Strong)), st0)
                == TypstRunView { output: s.output + "#strong["@, ..s }
        }),
        ({
            let s = typst_run(env, events, st0);
            s.admonish is None && s.code_block is None ==> typst_run(env, events.push(MdEvent::End(MdTagEnd::Strong)), st0)
                == TypstRunView { output: s.output + "]"@, ..s }
        }),
        ({
            let s = typst_run(env, events, st0);
            plain_text_point(s) ==> typst_run(
                env,
                events + seq![MdEvent::Start(MdTag::Strong), MdEvent::Text(t), MdEvent::End(MdTagEnd::Strong)],
                st0,
            ).output == s.output + "#strong["@ + escaped_typst(t@) + "]"@
        }),
{
    let s = typst_run(env, events, st0);
    assert(events.push(MdEvent::Start(MdTag::Strong)).drop_last() =~= events);
    assert(events.push(MdEvent::End(MdTagEnd::Strong)).drop_last() =~= events);
    let e3 = events + seq![MdEvent::Start(MdTag::Strong), MdEvent::Text(t), MdEvent::End(MdTagEnd::Strong)];
    let e1 = events.push(MdEvent::Start(MdTag::Strong));
    let e2 = e1.push(MdEvent::Text(t));
    assert(e3.drop_last() =~= e2);
    assert(e2.drop_last() =~= e1);
    let ee = events.push(MdEvent::End(MdTagEnd::Strong));
    assert(ee.last() == MdEvent::End(MdTagEnd::Strong));
    assert(typst_run(env, ee, st0) == typst_step(env, s, MdEvent::End(MdTagEnd::Strong)));
    assert(e1.last() == MdEvent::Start(MdTag::Strong));
    assert(typst_run(env, e1, st0) == typst_step(env, s, MdEvent::Start(MdTag::Strong)));
    if plain_text_point(s) {
        let s1 = typst_run(env, e1, st0);
        assert(e1.last() == MdEvent::Start(MdTag::Strong));
        assert(s1 == typst_step(env, s, MdEvent::Start(MdTag::Strong)));
        assert(s1 == typst_event(env, s, MdEvent::Start(MdTag::Strong)));
        assert(s1 == TypstRunView { output: s.output + "#strong["@, ..s });
        assert(plain_text_point(s1));
        let s2 = typst_run(env, e2, st0);
        assert(e2.last() == MdEvent::Text(t));
        assert(s2 == typst_step(env, s1, MdEvent::Text(t)));
        assert(!(exists|i: int| 0 <= i < s1.stack.len() && is_image_state(#[trigger] s1.stack[i])));
        assert(s2 == TypstRunView { output: s1.output + escaped_typst(t@), ..s1 });
        assert(s2.output =~= s.output + "#strong["@ + escaped_typst(t@));
        assert(e3.last() == MdEvent::End(MdTagEnd::Strong));
        assert(typst_run(env, e3, st0) == typst_step(env, s2, MdEvent::End(MdTagEnd::Strong)));
        assert(typst_run(env, e3, st0).output =~= s2.output + "]"@);
    }
}

/// Emphasis in the PDF. Outside code blocks and admonitions, the
/// start of such text writes exactly `#emph[` and changes nothing
/// else, and its end writes exactly `]`. So such text where text is
/// written plainly comes out as `#emph[`, the text escaped, and `]`.
pub proof fn lemma_typst_emphasis(env: TypstEnv, events: Seq<MdEvent>, st0: TypstRunView, t: String)
    ensures
        ({
            let s = typst_run(env, events, st0);
            s.admonish is None && s.code_block is None ==> typst_run(env, events.push(MdEvent::Start(MdTag::Emphasis)), st0)
                == TypstRunView { output: s.output + "#emph["@, ..s }
        }),
        ({
            let s = typst_run(env, events, st0);
            s.admonish is None && s.code_block is None ==> typst_run(env, events.push(MdEvent::End(MdTagEnd::Emphasis)), st0)
                == TypstRunView { output: s.output + "]"@, ..s }
        }),
        ({
            let s = typst_run(env, events, st0);
            plain_text_point(s) ==> typst_run(
                env,
                events + seq![MdEvent::Start(MdTag::Emphasis), MdEvent::Text(t), MdEvent::End(MdTagEnd::Emphasis)],
                st0,
            ).output == s.output + "#emph["@ + escaped_typst(t@) + "]"@
        }),
{
    let s = typst_run(env, events, st0);
    assert(events.push(MdEvent::Start(MdTag::Emphasis)).drop_last() =~= events);
    assert(events.push(MdEvent::End(MdTagEnd::Emphasis)).drop_last() =~= events);
    let e3 = events + seq![MdEvent::Start(MdTag::Emphasis), MdEvent::Text(t), MdEvent::End(MdTagEnd::Emphasis)];
    let e1 = events.push(MdEvent::Start(MdTag::Emphasis));
    let e2 = e1.push(MdEvent::Text(t));
    assert(e3.drop_last() =~= e2);
    assert(e2.drop_last() =~= e1);
    let ee = events.push(MdEvent::End(MdTagEnd::Emphasis));
    assert(ee.last() == MdEvent::End(MdTagEnd::Emphasis));
    assert(typst_run(env, ee, st0) == typst_step(env, s, MdEvent::End(MdTagEnd::Emphasis)));
    assert(e1.last() == MdEvent::Start(MdTag::Emphasis));
    assert(typst_run(env, e1, st0) == typst_step(env, s, MdEvent::Start(MdTag::Emphasis)));
    if plain_text_point(s) {
        let s1 = typst_run(env, e1, st0);
        assert(e1.last() == MdEvent::Start(MdTag::Emphasis));
        assert(s1 == typst_step(env, s, MdEvent::Start(MdTag::Emphasis)));
        assert(s1 == typst_event(env, s, MdEvent::Start(MdTag::Emphasis)));
        assert(s1 == TypstRunView { output: s.output + "#emph["@, ..s });
        assert(plain_text_point(s1));
        let s2 = typst_run(env, e2, st0);
        assert(e2.last() == MdEvent::Text(t));
        assert(s2 == typst_step(env, s1, MdEvent::Text(t)));
        assert(!(exists|i: int| 0 <= i < s1.stack.len() && is_image_state(#[trigger] s1.stack[i])));
        assert(s2 == TypstRunView { output: s1.output + escaped_typst(t@), ..s1 });
        assert(s2.output =~= s.output + "#emph["@ + escaped_typst(t@));
        assert(e3.last() == MdEvent::End(MdTagEnd::Emphasis));
        assert(typst_run(env, e3, st0) == typst_step(env, s2, MdEvent::End(MdTagEnd::Emphasis)));
        assert(typst_run(env, e3, st0).output =~= s2.output + "]"@);
    }
}

/// Struck-through text in the PDF. Outside code blocks and admonitions, the
/// start of such text writes exactly `#strike[` and changes nothing
/// else, and its end writes exactly `]`. So such text where text is
/// written plainly comes out as `#strike[`, the text escaped, and `]`.
pub proof fn lemma_typst_strikethrough(env: TypstEnv, events: Seq<MdEvent>, st0: TypstRunView, t: String)
    ensures
        ({
            let s = typst_run(env, events, st0);
            s.admonish is None && s.code_block is None ==> typst_run(env, events.push(MdEvent::Start(MdTag::Strikethrough)), st0)
                == TypstRunView { output: s.output + "#strike["@, ..s }
        }),
        ({
            let s = typst_run(env, events, st0);
            s.admonish is None && s.code_block is None ==> typst_run(env, events.push(MdEvent::End(MdTagEnd::Strikethrough)), st0)
                == TypstRunView { output: s.output + "]"@, ..s }
        }),
        ({
            let s = typst_run(env, events, st0);
            plain_text_point(s) ==> typst_run(
                env,
                events + seq![MdEvent::Start(MdTag::Strikethrough), MdEvent::Text(t), MdEvent::End(MdTagEnd::Strikethrough)],
                st0,
            ).output == s.output + "#strike["@ + escaped_typst(t@) + "]"@
        }),
{
    let s = typst_run(env, events, st0);
    assert(events.push(MdEvent::Start(MdTag::Strikethrough)).drop_last() =~= events);
    assert(events.push(MdEvent::End(MdTagEnd::Strikethrough)).drop_last() =~= events);
    let e3 = events + seq![MdEvent::Start(MdTag::Strikethrough), MdEvent::Text(t), MdEvent::End(MdTagEnd::Strikethrough)];
    let e1 = events.push(MdEvent::Start(MdTag::Strikethrough));
    let e2 = e1.push(MdEvent::Text(t));
    assert(e3.drop_last() =~= e2);
    assert(e2.drop_last() =~= e1);
    let ee = events.push(MdEvent::End(MdTagEnd::Strikethrough));
    assert(ee.last() == MdEvent::End(MdTagEnd::Strikethrough));
    assert(typst_run(env, ee, st0) == typst_step(env, s, MdEvent::End(MdTagEnd::Strikethrough)));
    assert(e1.last() == MdEvent::Start(MdTag::Strikethrough));
    assert(typst_run(env, e1, st0) == typst_step(env, s, MdEvent::Start(MdTag::Strikethrough)));
    if plain_text_point(s) {
        let s1 = typst_run(env, e1, st0);
        assert(e1.last() == MdEvent::Start(MdTag::Strikethrough));
        assert(s1 == typst_step(env, s, MdEvent::Start(MdTag::Strikethrough)));
        assert(s1 == typst_event(env, s, MdEvent::Start(MdTag::Strikethrough)));
        assert(s1 == TypstRunView { output: s.output + "#strike["@, ..s });
        assert(plain_text_point(s1));
        let s2 = typst_run(env, e2, st0);
        assert(e2.last() == MdEvent::Text(t));
        assert(s2 == typst_step(env, s1, MdEvent::Text(t)));
        assert(!(exists|i: int| 0 <= i < s1.stack.len() && is_image_state(#[trigger] s1.stack[i])));
        assert(s2 == TypstRunView { output: s1.output + escaped_typst(t@), ..s1 });
        assert(s2.output =~= s.output + "#strike["@ + escaped_typst(t@));
        assert(e3.last() == MdEvent::End(MdTagEnd::Strikethrough));
        assert(typst_run(env, e3, st0) == typst_step(env, s2, MdEvent::End(MdTagEnd::Strikethrough)));
        assert(typst_run(env, e3, st0).output =~= s2.output + "]"@);
    }
}

} // verus!
