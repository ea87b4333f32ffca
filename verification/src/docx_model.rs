//! The content of a DOCX body as plain values: runs with their properties,
//! paragraphs, hyperlinks, bookmarks and tables. Each type has a view made
//! of sequences, which the contracts speak of.

use vstd::prelude::*;

verus! {

/// A run property.
#[derive(Clone, Debug)]
pub enum RunProp {
    Bold,
    BoldComplexScript,
    Italic,
    Strike,
    Underline,
    /// A character style.
    RunStyle(String),
    /// A text colour, as six hex digits.
    Color(String),
    /// Consolas for all scripts.
    CodeFonts,
    /// A background fill, as six hex digits.
    Shading(String),
    /// Font size in half points.
    FontSize(String),
    FontSizeComplexScript(String),
}

pub enum RunPropV {
    Bold,
    BoldComplexScript,
    Italic,
    Strike,
    Underline,
    RunStyle(Seq<char>),
    Color(Seq<char>),
    CodeFonts,
    Shading(Seq<char>),
    FontSize(Seq<char>),
    FontSizeComplexScript(Seq<char>),
}

impl View for RunProp {
    type V = RunPropV;

    open spec fn view(&self) -> RunPropV {
        match self {
            RunProp::Bold => RunPropV::Bold,
            RunProp::BoldComplexScript => RunPropV::BoldComplexScript,
            RunProp::Italic => RunPropV::Italic,
            RunProp::Strike => RunPropV::Strike,
            RunProp::Underline => RunPropV::Underline,
            RunProp::RunStyle(s) => RunPropV::RunStyle(s@),
            RunProp::Color(s) => RunPropV::Color(s@),
            RunProp::CodeFonts => RunPropV::CodeFonts,
            RunProp::Shading(s) => RunPropV::Shading(s@),
            RunProp::FontSize(s) => RunPropV::FontSize(s@),
            RunProp::FontSizeComplexScript(s) => RunPropV::FontSizeComplexScript(s@),
        }
    }
}

/// The kind of a field character.
#[derive(Clone, Copy, Debug, PartialEq, Eq)]
pub enum FieldCharKind {
    Begin,
    Separate,
    End,
}

/// An embedded image: its relationship in the package, size in pixels and
/// alternative text.
#[derive(Clone, Debug)]
pub struct ImageRef {
    pub relationship_id: String,
    pub width: u32,
    pub height: u32,
    pub alt: String,
}

pub struct ImageRefV {
    pub relationship_id: Seq<char>,
    pub width: u32,
    pub height: u32,
    pub alt: Seq<char>,
}

impl View for ImageRef {
    type V = ImageRefV;

    open spec fn view(&self) -> ImageRefV {
        ImageRefV {
            relationship_id: self.relationship_id@,
            width: self.width,
            height: self.height,
            alt: self.alt@,
        }
    }
}

/// The content of a run.
#[derive(Clone, Debug)]
pub enum RunItem {
    /// Text, with whether its spaces must be kept.
    Text(String, bool),
    /// A line break.
    Break,
    PageBreak,
    Tab,
    /// A field character, with whether the field must be updated.
    FieldChar(FieldCharKind, bool),
    FieldCode(String),
    /// An inline picture with its drawing id.
    Drawing(u32, ImageRef),
}

pub enum RunItemV {
    Text(Seq<char>, bool),
    Break,
    PageBreak,
    Tab,
    FieldChar(FieldCharKind, bool),
    FieldCode(Seq<char>),
    Drawing(u32, ImageRefV),
}

impl View for RunItem {
    type V = RunItemV;

    open spec fn view(&self) -> RunItemV {
        match self {
            RunItem::Text(s, p) => RunItemV::Text(s@, *p),
            RunItem::Break => RunItemV::Break,
            RunItem::PageBreak => RunItemV::PageBreak,
            RunItem::Tab => RunItemV::Tab,
            RunItem::FieldChar(k, d) => RunItemV::FieldChar(*k, *d),
            RunItem::FieldCode(s) => RunItemV::FieldCode(s@),
            RunItem::Drawing(id, i) => RunItemV::Drawing(*id, i@),
        }
    }
}

/// The views of run properties.
pub open spec fn props_view(v: Seq<RunProp>) -> Seq<RunPropV> {
    Seq::new(v.len(), |i: int| v[i]@)
}

/// A run: optional properties and one piece of content.
#[derive(Clone, Debug)]
pub struct Run {
    pub props: Option<Vec<RunProp>>,
    pub item: RunItem,
}

pub struct RunV {
    pub props: Option<Seq<RunPropV>>,
    pub item: RunItemV,
}

impl View for Run {
    type V = RunV;

    open spec fn view(&self) -> RunV {
        RunV {
            props: match self.props {
                Some(p) => Some(props_view(p@)),
                None => None,
            },
            item: self.item@,
        }
    }
}

/// The views of runs.
pub open spec fn runs_view(v: Seq<Run>) -> Seq<RunV> {
    Seq::new(v.len(), |i: int| v[i]@)
}

/// Where a hyperlink leads: a URL outside the document, or a bookmark in it.
#[derive(Clone, Debug)]
pub enum LinkTarget {
    External(String),
    Anchor(String),
}

pub enum LinkTargetV {
    External(Seq<char>),
    Anchor(Seq<char>),
}

impl View for LinkTarget {
    type V = LinkTargetV;

    open spec fn view(&self) -> LinkTargetV {
        match self {
            LinkTarget::External(s) => LinkTargetV::External(s@),
            LinkTarget::Anchor(s) => LinkTargetV::Anchor(s@),
        }
    }
}

/// A piece of a paragraph.
#[derive(Clone, Debug)]
pub enum ParagraphItem {
    Run(Run),
    Hyperlink(LinkTarget, Vec<Run>),
    /// A bookmark's start, with its name and id.
    BookmarkStart(String, String),
    /// A bookmark's end, with its id.
    BookmarkEnd(String),
}

pub enum ParagraphItemV {
    Run(RunV),
    Hyperlink(LinkTargetV, Seq<RunV>),
    BookmarkStart(Seq<char>, Seq<char>),
    BookmarkEnd(Seq<char>),
}

impl View for ParagraphItem {
    type V = ParagraphItemV;

    open spec fn view(&self) -> ParagraphItemV {
        match self {
            ParagraphItem::Run(r) => ParagraphItemV::Run(r@),
            ParagraphItem::Hyperlink(t, rs) => ParagraphItemV::Hyperlink(t@, runs_view(rs@)),
            ParagraphItem::BookmarkStart(n, i) => ParagraphItemV::BookmarkStart(n@, i@),
            ParagraphItem::BookmarkEnd(i) => ParagraphItemV::BookmarkEnd(i@),
        }
    }
}

pub open spec fn items_view(v: Seq<ParagraphItem>) -> Seq<ParagraphItemV> {
    Seq::new(v.len(), |i: int| v[i]@)
}

/// Paragraph alignment.
#[derive(Clone, Copy, Debug, PartialEq, Eq)]
pub enum Justify {
    Left,
    Center,
    Right,
    Both,
}

/// Paragraph indentation in twips.
#[derive(Clone, Copy, Debug, PartialEq, Eq)]
pub struct Indentation {
    pub left: Option<i64>,
    pub right: Option<i64>,
}

/// Paragraph spacing in twips; `auto_rule` marks line spacing relative to
/// the font.
#[derive(Clone, Copy, Debug, PartialEq, Eq)]
pub struct Spacing {
    pub before: Option<u64>,
    pub after: Option<u64>,
    pub line: Option<i64>,
    pub auto_rule: bool,
}

/// Paragraph properties.
#[derive(Clone, Debug)]
pub struct ParagraphProps {
    pub style: Option<String>,
    pub indentation: Option<Indentation>,
    /// List level and numbering instance.
    pub numbering: Option<(i32, i32)>,
    /// Background fill, as six hex digits.
    pub shading: Option<String>,
    pub justification: Option<Justify>,
    pub spacing: Option<Spacing>,
    /// A right-aligned tab stop with a dot leader at this position.
    pub dot_tab: Option<i64>,
}

pub struct ParagraphPropsV {
    pub style: Option<Seq<char>>,
    pub indentation: Option<Indentation>,
    pub numbering: Option<(i32, i32)>,
    pub shading: Option<Seq<char>>,
    pub justification: Option<Justify>,
    pub spacing: Option<Spacing>,
    pub dot_tab: Option<i64>,
}

pub open spec fn opt_seq(s: Option<String>) -> Option<Seq<char>> {
    match s {
        Some(t) => Some(t@),
        None => None,
    }
}

impl View for ParagraphProps {
    type V = ParagraphPropsV;

    open spec fn view(&self) -> ParagraphPropsV {
        ParagraphPropsV {
            style: opt_seq(self.style),
            indentation: self.indentation,
            numbering: self.numbering,
            shading: opt_seq(self.shading),
            justification: self.justification,
            spacing: self.spacing,
            dot_tab: self.dot_tab,
        }
    }
}

/// A paragraph.
#[derive(Clone, Debug)]
pub struct Paragraph {
    pub props: Option<ParagraphProps>,
    pub items: Vec<ParagraphItem>,
}

pub struct ParagraphV {
    pub props: Option<ParagraphPropsV>,
    pub items: Seq<ParagraphItemV>,
}

impl View for Paragraph {
    type V = ParagraphV;

    open spec fn view(&self) -> ParagraphV {
        ParagraphV {
            props: match self.props {
                Some(p) => Some(p@),
                None => None,
            },
            items: items_view(self.items@),
        }
    }
}

pub open spec fn paragraphs_view(v: Seq<Paragraph>) -> Seq<ParagraphV> {
    Seq::new(v.len(), |i: int| v[i]@)
}

/// A table cell: whether it is a header cell, its background fill (six
/// hex digits) if it has one, and its paragraphs.
#[derive(Clone, Debug)]
pub struct TableCell {
    pub is_head: bool,
    pub shading: Option<String>,
    pub paragraphs: Vec<Paragraph>,
}

pub struct TableCellV {
    pub is_head: bool,
    pub shading: Option<Seq<char>>,
    pub paragraphs: Seq<ParagraphV>,
}

impl View for TableCell {
    type V = TableCellV;

    open spec fn view(&self) -> TableCellV {
        TableCellV { is_head: self.is_head, shading: opt_seq(self.shading), paragraphs: paragraphs_view(self.paragraphs@) }
    }
}

pub open spec fn cells_view(v: Seq<TableCell>) -> Seq<TableCellV> {
    Seq::new(v.len(), |i: int| v[i]@)
}

/// A table row: whether it is a header row, and its cells.
#[derive(Clone, Debug)]
pub struct TableRow {
    pub is_head: bool,
    pub cells: Vec<TableCell>,
}

pub struct TableRowV {
    pub is_head: bool,
    pub cells: Seq<TableCellV>,
}

impl View for TableRow {
    type V = TableRowV;

    open spec fn view(&self) -> TableRowV {
        TableRowV { is_head: self.is_head, cells: cells_view(self.cells@) }
    }
}

pub open spec fn rows_view(v: Seq<TableRow>) -> Seq<TableRowV> {
    Seq::new(v.len(), |i: int| v[i]@)
}

/// A table: its style, number of columns, width of each column in twips,
/// and rows.
#[derive(Clone, Debug)]
pub struct Table {
    pub style: String,
    pub column_count: usize,
    pub cell_width: i64,
    pub rows: Vec<TableRow>,
}

pub struct TableV {
    pub style: Seq<char>,
    pub column_count: usize,
    pub cell_width: i64,
    pub rows: Seq<TableRowV>,
}

impl View for Table {
    type V = TableV;

    open spec fn view(&self) -> TableV {
        TableV {
            style: self.style@,
            column_count: self.column_count,
            cell_width: self.cell_width,
            rows: rows_view(self.rows@),
        }
    }
}

/// A block of the document body.
#[derive(Clone, Debug)]
pub enum Block {
    Paragraph(Paragraph),
    Table(Table),
}

pub enum BlockV {
    Paragraph(ParagraphV),
    Table(TableV),
}

impl View for Block {
    type V = BlockV;

    open spec fn view(&self) -> BlockV {
        match self {
            Block::Paragraph(p) => BlockV::Paragraph(p@),
            Block::Table(t) => BlockV::Table(t@),
        }
    }
}

pub open spec fn blocks_view(v: Seq<Block>) -> Seq<BlockV> {
    Seq::new(v.len(), |i: int| v[i]@)
}

} // verus!
