//! Markdown events as plain values, and the call into `pulldown_cmark` that
//! produces them from a chapter's source.

use vstd::prelude::*;
use pulldown_cmark::{Alignment, CodeBlockKind, CowStr, Event, HeadingLevel, Options, Parser, Tag, TagEnd};

verus! {

#[verifier::external_type_specification]
#[verifier::external_body]
pub struct ExEvent<'a>(Event<'a>);

#[verifier::external_type_specification]
#[verifier::external_body]
pub struct ExTag<'a>(Tag<'a>);

#[verifier::external_type_specification]
#[verifier::external_body]
pub struct ExTagEnd(TagEnd);

#[verifier::external_type_specification]
#[verifier::external_body]
pub struct ExCowStr<'a>(CowStr<'a>);

#[verifier::external_type_specification]
#[verifier::external_body]
pub struct ExHeadingLevel(HeadingLevel);

#[verifier::external_type_specification]
#[verifier::external_body]
pub struct ExCodeBlockKind<'a>(CodeBlockKind<'a>);

#[verifier::external_type_specification]
#[verifier::external_body]
pub struct ExAlignment(Alignment);

/// Column alignment of a table.
#[derive(Clone, Copy, Debug, PartialEq, Eq)]
pub enum MdAlign {
    /// No alignment given.
    Unset,
    Left,
    Center,
    Right,
}

/// The start of a Markdown element.
#[derive(Clone, Debug)]
pub enum MdTag {
    Paragraph,
    /// A heading of level 1 to 6.
    Heading(usize),
    BlockQuote,
    /// A code block with the info string of a fenced block, or `None` when
    /// it is indented.
    CodeBlock(Option<String>),
    /// A list, numbered from the given start or a bullet list.
    List(Option<u64>),
    Item,
    Table(Vec<MdAlign>),
    TableHead,
    TableRow,
    TableCell,
    Emphasis,
    Strong,
    Strikethrough,
    /// A link to the destination URL.
    Link(String),
    /// An image at the destination URL.
    Image(String),
    Other,
}

/// The end of a Markdown element.
#[derive(Clone, Debug)]
pub enum MdTagEnd {
    Paragraph,
    Heading(usize),
    BlockQuote,
    CodeBlock,
    List,
    Item,
    Table,
    TableHead,
    TableRow,
    TableCell,
    Emphasis,
    Strong,
    Strikethrough,
    Link,
    Image,
    Other,
}

/// One event of a parsed Markdown document.
#[derive(Clone, Debug)]
pub enum MdEvent {
    Start(MdTag),
    End(MdTagEnd),
    Text(String),
    Code(String),
    Html(String),
    InlineHtml(String),
    FootnoteReference(String),
    SoftBreak,
    HardBreak,
    Rule,
    TaskListMarker(bool),
    Other,
}

enum EventParts<'a> {
    Start(Tag<'a>),
    End(TagEnd),
    Text(CowStr<'a>),
    Code(CowStr<'a>),
    Html(CowStr<'a>),
    InlineHtml(CowStr<'a>),
    Footnote(CowStr<'a>),
    SoftBreak,
    HardBreak,
    Rule,
    Task(bool),
    Other,
}

enum BlockTagParts<'a> {
    Paragraph,
    Heading(HeadingLevel),
    BlockQuote,
    CodeBlock(CodeBlockKind<'a>),
    List(Option<u64>),
    Item,
    Table(Vec<Alignment>),
    TableHead,
    TableRow,
    TableCell,
    NotBlock(Tag<'a>),
}

enum InlineTagParts<'a> {
    Emphasis,
    Strong,
    Strikethrough,
    Link(CowStr<'a>),
    Image(CowStr<'a>),
    Other,
}

enum BlockEndParts {
    Paragraph,
    Heading(HeadingLevel),
    BlockQuote,
    CodeBlock,
    List,
    Item,
    Table,
    TableHead,
    TableRow,
    TableCell,
    NotBlock(TagEnd),
}

/// Tells the variants of a `pulldown_cmark::Event` apart.
#[verifier::external_body]
fn event_parts<'a>(e: Event<'a>) -> EventParts<'a> {
    match e {
        Event::Start(t) => EventParts::Start(t),
        Event::End(t) => EventParts::End(t),
        Event::Text(s) => EventParts::Text(s),
        Event::Code(s) => EventParts::Code(s),
        Event::Html(s) => EventParts::Html(s),
        Event::InlineHtml(s) => EventParts::InlineHtml(s),
        Event::FootnoteReference(s) => EventParts::Footnote(s),
        Event::SoftBreak => EventParts::SoftBreak,
        Event::HardBreak => EventParts::HardBreak,
        Event::Rule => EventParts::Rule,
        Event::TaskListMarker(b) => EventParts::Task(b),
        _ => EventParts::Other,
    }
}

/// Tells the block-level variants of a `pulldown_cmark::Tag` apart.
#[verifier::external_body]
fn block_tag_parts<'a>(t: Tag<'a>) -> BlockTagParts<'a> {
    match t {
        Tag::Paragraph => BlockTagParts::Paragraph,
        Tag::Heading { level, .. } => BlockTagParts::Heading(level),
        Tag::BlockQuote(_) => BlockTagParts::BlockQuote,
        Tag::CodeBlock(kind) => BlockTagParts::CodeBlock(kind),
        Tag::List(start) => BlockTagParts::List(start),
        Tag::Item => BlockTagParts::Item,
        Tag::Table(a) => BlockTagParts::Table(a),
        Tag::TableHead => BlockTagParts::TableHead,
        Tag::TableRow => BlockTagParts::TableRow,
        Tag::TableCell => BlockTagParts::TableCell,
        other => BlockTagParts::NotBlock(other),
    }
}

/// Tells the inline variants of a `pulldown_cmark::Tag` apart.
#[verifier::external_body]
fn inline_tag_parts<'a>(t: Tag<'a>) -> InlineTagParts<'a> {
    match t {
        Tag::Emphasis => InlineTagParts::Emphasis,
        Tag::Strong => InlineTagParts::Strong,
        Tag::Strikethrough => InlineTagParts::Strikethrough,
        Tag::Link { dest_url, .. } => InlineTagParts::Link(dest_url),
        Tag::Image { dest_url, .. } => InlineTagParts::Image(dest_url),
        _ => InlineTagParts::Other,
    }
}

/// Tells the block-level variants of a `pulldown_cmark::TagEnd` apart.
#[verifier::external_body]
fn block_end_parts(t: TagEnd) -> BlockEndParts {
    match t {
        TagEnd::Paragraph => BlockEndParts::Paragraph,
        TagEnd::Heading(level) => BlockEndParts::Heading(level),
        TagEnd::BlockQuote(_) => BlockEndParts::BlockQuote,
        TagEnd::CodeBlock => BlockEndParts::CodeBlock,
        TagEnd::List(_) => BlockEndParts::List,
        TagEnd::Item => BlockEndParts::Item,
        TagEnd::Table => BlockEndParts::Table,
        TagEnd::TableHead => BlockEndParts::TableHead,
        TagEnd::TableRow => BlockEndParts::TableRow,
        TagEnd::TableCell => BlockEndParts::TableCell,
        other => BlockEndParts::NotBlock(other),
    }
}

/// Tells the inline variants of a `pulldown_cmark::TagEnd` apart.
#[verifier::external_body]
fn inline_end(t: TagEnd) -> (r: MdTagEnd)
    ensures
        !(r is Heading),
{
    match t {
        TagEnd::Emphasis => MdTagEnd::Emphasis,
        TagEnd::Strong => MdTagEnd::Strong,
        TagEnd::Strikethrough => MdTagEnd::Strikethrough,
        TagEnd::Link => MdTagEnd::Link,
        TagEnd::Image => MdTagEnd::Image,
        _ => MdTagEnd::Other,
    }
}

/// The number of a `pulldown_cmark::HeadingLevel` (`H1` is 1, ..., `H6` is 6,
/// its discriminants in the crate's source).
#[verifier::external_body]
fn heading_level_number(level: HeadingLevel) -> (n: usize)
    ensures
        1 <= n <= 6,
{
    level as usize
}

/// The info string of a fenced code block, or `None` for an indented one.
#[verifier::external_body]
fn code_block_info<'a>(kind: CodeBlockKind<'a>) -> Option<CowStr<'a>> {
    match kind {
        CodeBlockKind::Indented => None,
        CodeBlockKind::Fenced(info) => Some(info),
    }
}

/// The library's value of a `pulldown_cmark::Alignment`.
#[verifier::external_body]
fn md_align(a: &Alignment) -> MdAlign {
    match a {
        Alignment::None => MdAlign::Unset,
        Alignment::Left => MdAlign::Left,
        Alignment::Center => MdAlign::Center,
        Alignment::Right => MdAlign::Right,
    }
}

/// The text of a `pulldown_cmark::CowStr`.
#[verifier::external_body]
fn cow_string(s: CowStr<'_>) -> String {
    s.into_string()
}

fn to_md_tag(t: Tag<'_>) -> (r: MdTag)
    ensures
        event_level_ok(MdEvent::Start(r)),
{
    match block_tag_parts(t) {
        BlockTagParts::Paragraph => MdTag::Paragraph,
        BlockTagParts::Heading(l) => MdTag::Heading(heading_level_number(l)),
        BlockTagParts::BlockQuote => MdTag::BlockQuote,
        BlockTagParts::CodeBlock(k) => match code_block_info(k) {
            Some(info) => MdTag::CodeBlock(Some(cow_string(info))),
            None => MdTag::CodeBlock(None),
        },
        BlockTagParts::List(start) => MdTag::List(start),
        BlockTagParts::Item => MdTag::Item,
        BlockTagParts::Table(a) => {
            let mut aligns: Vec<MdAlign> = Vec::new();
            let mut i: usize = 0;
            while i < a.len()
                decreases a.len() - i,
            {
                aligns.push(md_align(&a[i]));
                i += 1;
            }
            MdTag::Table(aligns)
        },
        BlockTagParts::TableHead => MdTag::TableHead,
        BlockTagParts::TableRow => MdTag::TableRow,
        BlockTagParts::TableCell => MdTag::TableCell,
        BlockTagParts::NotBlock(t) => match inline_tag_parts(t) {
            InlineTagParts::Emphasis => MdTag::Emphasis,
            InlineTagParts::Strong => MdTag::Strong,
            InlineTagParts::Strikethrough => MdTag::Strikethrough,
            InlineTagParts::Link(u) => MdTag::Link(cow_string(u)),
            InlineTagParts::Image(u) => MdTag::Image(cow_string(u)),
            InlineTagParts::Other => MdTag::Other,
        },
    }
}

fn to_md_tag_end(t: TagEnd) -> (r: MdTagEnd)
    ensures
        event_level_ok(MdEvent::End(r)),
{
    match block_end_parts(t) {
        BlockEndParts::Paragraph => MdTagEnd::Paragraph,
        BlockEndParts::Heading(l) => MdTagEnd::Heading(heading_level_number(l)),
        BlockEndParts::BlockQuote => MdTagEnd::BlockQuote,
        BlockEndParts::CodeBlock => MdTagEnd::CodeBlock,
        BlockEndParts::List => MdTagEnd::List,
        BlockEndParts::Item => MdTagEnd::Item,
        BlockEndParts::Table => MdTagEnd::Table,
        BlockEndParts::TableHead => MdTagEnd::TableHead,
        BlockEndParts::TableRow => MdTagEnd::TableRow,
        BlockEndParts::TableCell => MdTagEnd::TableCell,
        BlockEndParts::NotBlock(t) => inline_end(t),
    }
}

/// The library's value of a `pulldown_cmark::Event`.
fn to_md_event(e: Event<'_>) -> (r: MdEvent)
    ensures
        event_level_ok(r),
{
    match event_parts(e) {
        EventParts::Start(t) => MdEvent::Start(to_md_tag(t)),
        EventParts::End(t) => MdEvent::End(to_md_tag_end(t)),
        EventParts::Text(s) => MdEvent::Text(cow_string(s)),
        EventParts::Code(s) => MdEvent::Code(cow_string(s)),
        EventParts::Html(s) => MdEvent::Html(cow_string(s)),
        EventParts::InlineHtml(s) => MdEvent::InlineHtml(cow_string(s)),
        EventParts::Footnote(s) => MdEvent::FootnoteReference(cow_string(s)),
        EventParts::SoftBreak => MdEvent::SoftBreak,
        EventParts::HardBreak => MdEvent::HardBreak,
        EventParts::Rule => MdEvent::Rule,
        EventParts::Task(b) => MdEvent::TaskListMarker(b),
        EventParts::Other => MdEvent::Other,
    }
}

/// Every heading event has a level from 1 to 6.
pub open spec fn heading_levels_ok(events: Seq<MdEvent>) -> bool {
    forall|i: int| 0 <= i < events.len() ==> #[trigger] event_level_ok(events[i])
}

/// A heading event has a level from 1 to 6.
pub open spec fn event_level_ok(e: MdEvent) -> bool {
    match e {
        MdEvent::Start(MdTag::Heading(l)) => 1 <= l <= 6,
        MdEvent::End(MdTagEnd::Heading(l)) => 1 <= l <= 6,
        _ => true,
    }
}

/// The events that `pulldown_cmark` produces for `content` with smart
/// punctuation, tables, strikethrough, task lists and footnotes enabled.
pub uninterp spec fn markdown_events(content: Seq<char>) -> Seq<MdEvent>;

/// Parses `content` with `pulldown_cmark::Parser::new_ext` (smart punctuation,
/// tables, strikethrough, task lists and footnotes) and hands out the events
/// as plain values. Claimed of the crate: heading levels are `H1` to `H6`,
/// whose discriminants are 1 to 6.
#[verifier::external_body]
pub(crate) fn parse_markdown(content: &str) -> (r: Vec<MdEvent>)
    ensures
        r@ == markdown_events(content@),
        heading_levels_ok(r@),
{
    let options = Options::ENABLE_SMART_PUNCTUATION | Options::ENABLE_TABLES
        | Options::ENABLE_STRIKETHROUGH | Options::ENABLE_TASKLISTS | Options::ENABLE_FOOTNOTES;
    Parser::new_ext(content, options).map(to_md_event).collect()
}

} // verus!
