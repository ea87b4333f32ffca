//! Markdown tables in DOCX output: the rows and cells gathered while the
//! events of a table are read, and the table they become.

use vstd::prelude::*;
use crate::docx_model::{
    cells_view, items_view, paragraphs_view, props_view, rows_view, Justify, Paragraph, ParagraphItem,
    ParagraphItemV, ParagraphProps, ParagraphPropsV, ParagraphV, Run, RunProp, RunPropV, RunV, Spacing,
    Table, TableCell, TableCellV, TableRow, TableRowV, TableV,
};
use crate::markdown::MdAlign;

verus! {

/// The alignment of a body cell's paragraphs; centred when the column sets
/// none.
pub open spec fn alignment_of(a: MdAlign) -> Justify {
    match a {
        MdAlign::Center => Justify::Center,
        MdAlign::Right => Justify::Right,
        MdAlign::Left => Justify::Left,
        MdAlign::Unset => Justify::Center,
    }
}

/// The alignment of a body cell's paragraphs (see `alignment_of`).
pub fn paragraph_alignment(a: MdAlign) -> (j: Justify)
    ensures
        j == alignment_of(a),
{
    match a {
        MdAlign::Center => Justify::Center,
        MdAlign::Right => Justify::Right,
        MdAlign::Left => Justify::Left,
        MdAlign::Unset => Justify::Center,
    }
}

/// Single spacing without space before or after.
pub open spec fn cell_spacing() -> Spacing {
    Spacing { before: Some(0), after: Some(0), line: Some(240), auto_rule: true }
}

/// Paragraph properties with nothing set.
pub open spec fn no_props() -> ParagraphPropsV {
    ParagraphPropsV {
        style: None,
        indentation: None,
        numbering: None,
        shading: None,
        justification: None,
        spacing: None,
        dot_tab: None,
    }
}

/// A run made bold (bold and complex-script bold added to its properties).
pub open spec fn bold_run(r: RunV) -> RunV {
    RunV {
        props: Some(
            (match r.props {
                Some(p) => p,
                None => seq![],
            }) + seq![RunPropV::Bold, RunPropV::BoldComplexScript],
        ),
        item: r.item,
    }
}

/// The items of a header cell's paragraph: its direct runs made bold.
pub open spec fn bold_items(items: Seq<ParagraphItemV>) -> Seq<ParagraphItemV> {
    Seq::new(
        items.len(),
        |i: int| match items[i] {
            ParagraphItemV::Run(r) => ParagraphItemV::Run(bold_run(r)),
            other => other,
        },
    )
}

/// A paragraph of a table cell: aligned (centred in a header cell), single
/// spaced, and in a header cell with its runs in bold.
pub open spec fn cell_paragraph(p: ParagraphV, head: bool, a: MdAlign) -> ParagraphV {
    let base = match p.props {
        Some(q) => q,
        None => no_props(),
    };
    ParagraphV {
        props: Some(ParagraphPropsV {
            justification: Some(if head { Justify::Center } else { alignment_of(a) }),
            spacing: Some(cell_spacing()),
            ..base
        }),
        items: if head { bold_items(p.items) } else { p.items },
    }
}

pub open spec fn cell_paragraphs_v(ps: Seq<ParagraphV>, head: bool, a: MdAlign) -> Seq<ParagraphV> {
    Seq::new(ps.len(), |i: int| cell_paragraph(ps[i], head, a))
}

fn bold_run_exec(r: Run) -> (b: Run)
    ensures
        b@ == bold_run(r@),
{
    let mut props = match r.props {
        Some(p) => p,
        None => Vec::new(),
    };
    let ghost before = props@;
    props.push(RunProp::Bold);
    props.push(RunProp::BoldComplexScript);
    assert(props_view(props@) =~= props_view(before) + seq![RunPropV::Bold, RunPropV::BoldComplexScript]);
    proof {
        if r.props is None {
            assert(props_view(before) =~= Seq::<RunPropV>::empty());
        }
    }
    Run { props: Some(props), item: r.item }
}

/// A paragraph of a table cell (see `cell_paragraph`).
pub fn cell_paragraph_exec(p: Paragraph, head: bool, a: MdAlign) -> (r: Paragraph)
    ensures
        r@ == cell_paragraph(p@, head, a),
{
    let mut props = match p.props {
        Some(q) => q,
        None => ParagraphProps {
            style: None,
            indentation: None,
            numbering: None,
            shading: None,
            justification: None,
            spacing: None,
            dot_tab: None,
        },
    };
    props.justification = Some(if head { Justify::Center } else { paragraph_alignment(a) });
    props.spacing = Some(Spacing { before: Some(0), after: Some(0), line: Some(240), auto_rule: true });
    let ghost old_items = p@.items;
    let items = if head {
        let mut out: Vec<ParagraphItem> = Vec::new();
        let mut rest = p.items;
        let ghost all = rest@;
        let mut i: usize = 0;
        let n = rest.len();
        while i < n
            invariant
                n == all.len(),
                i <= n,
                items_view(all) == old_items,
                out@.len() == i,
                forall|k: int| 0 <= k < i ==> #[trigger] out@[k]@ == bold_items(old_items)[k],
                rest@.len() == n - i,
                forall|k: int| 0 <= k < rest@.len() ==> #[trigger] rest@[k] == all[k + i],
            decreases n - i,
        {
            let item = rest.remove(0);
            assert(item == all[i as int]);
            let b = match item {
                ParagraphItem::Run(r) => ParagraphItem::Run(bold_run_exec(r)),
                other => other,
            };
            assert(b@ == bold_items(old_items)[i as int]) by {
                assert(old_items[i as int] == all[i as int]@);
            }
            out.push(b);
            i += 1;
        }
        assert(items_view(out@) =~= bold_items(old_items));
        out
    } else {
        p.items
    };
    Paragraph { props: Some(props), items }
}

/// The paragraphs of a table cell (see `cell_paragraphs_v`).
pub fn table_cell_paragraphs(paragraphs: Vec<Paragraph>, head: bool, a: MdAlign) -> (r: Vec<Paragraph>)
    ensures
        paragraphs_view(r@) == cell_paragraphs_v(paragraphs_view(paragraphs@), head, a),
{
    let ghost all = paragraphs@;
    let mut rest = paragraphs;
    let mut out: Vec<Paragraph> = Vec::new();
    let n = rest.len();
    let mut i: usize = 0;
    while i < n
        invariant
            n == all.len(),
            i <= n,
            out@.len() == i,
            forall|k: int| 0 <= k < i ==> #[trigger] out@[k]@ == cell_paragraph(all[k]@, head, a),
            rest@.len() == n - i,
            forall|k: int| 0 <= k < rest@.len() ==> #[trigger] rest@[k] == all[k + i],
        decreases n - i,
    {
        let p = rest.remove(0);
        assert(p == all[i as int]);
        out.push(cell_paragraph_exec(p, head, a));
        i += 1;
    }
    assert(paragraphs_view(out@) =~= cell_paragraphs_v(paragraphs_view(all), head, a));
    out
}

/// A table being read: its style and column alignments, the finished rows,
/// the cells of the row and the paragraphs of the cell being read, and
/// whether the header, the row and the cell are header parts.
#[verifier::ext_equal]
pub struct TableBuildV {
    pub style: Seq<char>,
    pub aligns: Seq<MdAlign>,
    pub rows: Seq<TableRowV>,
    pub row: Seq<TableCellV>,
    pub cell: Seq<ParagraphV>,
    pub in_head: bool,
    pub row_head: bool,
    pub cell_head: bool,
}

pub open spec fn new_table_v(style: Seq<char>, aligns: Seq<MdAlign>) -> TableBuildV {
    TableBuildV {
        style,
        aligns,
        rows: seq![],
        row: seq![],
        cell: seq![],
        in_head: false,
        row_head: false,
        cell_head: false,
    }
}

/// An empty paragraph without properties.
pub open spec fn empty_paragraph() -> ParagraphV {
    ParagraphV { props: None, items: seq![] }
}

/// The cell being read closes (an empty cell gets one empty paragraph).
pub open spec fn end_cell_v(t: TableBuildV) -> TableBuildV {
    let ps = if t.cell.len() == 0 { seq![empty_paragraph()] } else { t.cell };
    TableBuildV { row: t.row.push(TableCellV { is_head: t.cell_head, shading: None, paragraphs: ps }), cell: seq![], ..t }
}

/// The row being read closes (its open cell first); an empty row is dropped.
pub open spec fn end_row_v(t: TableBuildV) -> TableBuildV {
    let t1 = if t.cell.len() > 0 { end_cell_v(t) } else { t };
    if t1.row.len() > 0 {
        TableBuildV { rows: t1.rows.push(TableRowV { is_head: t1.row_head, cells: t1.row }), row: seq![], ..t1 }
    } else {
        t1
    }
}

/// A row starts (closing one left open); it is a header row in the header.
pub open spec fn start_row_v(t: TableBuildV) -> TableBuildV {
    let t1 = if t.row.len() > 0 || t.cell.len() > 0 { end_row_v(t) } else { t };
    TableBuildV { row: seq![], row_head: t1.in_head, ..t1 }
}

/// A cell starts; in the header it makes its row a header row.
pub open spec fn start_cell_v(t: TableBuildV) -> TableBuildV {
    TableBuildV { cell: seq![], cell_head: t.in_head, row_head: t.row_head || t.in_head, ..t }
}

/// The largest number of cells in a row.
pub open spec fn max_cells(rows: Seq<TableRowV>) -> nat
    decreases rows.len(),
{
    if rows.len() == 0 {
        0
    } else {
        let m = max_cells(rows.drop_last());
        if rows.last().cells.len() > m { rows.last().cells.len() } else { m }
    }
}

/// The alignment of column `i`, unset past the given ones.
pub open spec fn align_at(aligns: Seq<MdAlign>, i: int) -> MdAlign {
    if 0 <= i < aligns.len() { aligns[i] } else { MdAlign::Unset }
}

/// A finished cell in column `i` of a row: a header cell, in a header row
/// or not, is filled grey (`CCCCCC`).
pub open spec fn final_cell(c: TableCellV, row_head: bool, aligns: Seq<MdAlign>, i: int) -> TableCellV {
    let head = c.is_head || row_head;
    TableCellV {
        is_head: head,
        shading: if head { Some("CCCCCC"@) } else { None },
        paragraphs: cell_paragraphs_v(c.paragraphs, head, align_at(aligns, i)),
    }
}

pub open spec fn final_row(r: TableRowV, aligns: Seq<MdAlign>) -> TableRowV {
    TableRowV { is_head: r.is_head, cells: Seq::new(r.cells.len(), |i: int| final_cell(r.cells[i], r.is_head, aligns, i)) }
}

/// The table: as many columns as the longest row (at least one), sharing
/// 8220 twips equally; each cell's paragraphs formatted by its column's
/// alignment and whether it is a header cell.
pub open spec fn table_of(t: TableBuildV) -> TableV {
    let count = if max_cells(t.rows) > 0 { max_cells(t.rows) } else { 1 };
    TableV {
        style: t.style,
        column_count: count as usize,
        cell_width: (8220int / (count as int)) as i64,
        rows: Seq::new(t.rows.len(), |i: int| final_row(t.rows[i], t.aligns)),
    }
}

proof fn lemma_max_cells(rows: Seq<TableRowV>)
    ensures
        forall|i: int| 0 <= i < rows.len() ==> (#[trigger] rows[i]).cells.len() <= max_cells(rows),
        (forall|i: int| 0 <= i < rows.len() ==> (#[trigger] rows[i]).cells.len() <= usize::MAX) ==> max_cells(rows) <= usize::MAX,
    decreases rows.len(),
{
    if rows.len() > 0 {
        lemma_max_cells(rows.drop_last());
        if forall|i: int| 0 <= i < rows.len() ==> (#[trigger] rows[i]).cells.len() <= usize::MAX {
            assert forall|i: int| 0 <= i < rows.drop_last().len() implies (#[trigger] rows.drop_last()[i]).cells.len() <= usize::MAX by {
                assert(rows.drop_last()[i] == rows[i]);
            }
            assert(rows.last() == rows[rows.len() - 1]);
        }
        assert forall|i: int| 0 <= i < rows.len() implies (#[trigger] rows[i]).cells.len() <= max_cells(rows) by {
            if i < rows.len() - 1 {
                assert(rows[i] == rows.drop_last()[i]);
            }
        }
    }
}

/// A finished table has a column for every cell of its longest row, and
/// its columns together are never wider than 8220 twips and lose less
/// than one twip per column to rounding.
pub proof fn lemma_table_fits(t: TableBuildV)
    requires
        forall|i: int| 0 <= i < t.rows.len() ==> (#[trigger] t.rows[i]).cells.len() <= usize::MAX,
    ensures
        table_of(t).column_count >= 1,
        forall|i: int| 0 <= i < table_of(t).rows.len() ==> (#[trigger] table_of(t).rows[i]).cells.len() <= table_of(t).column_count,
        table_of(t).rows.len() == t.rows.len(),
        table_of(t).cell_width * table_of(t).column_count <= 8220,
        8220 - table_of(t).column_count < table_of(t).cell_width * table_of(t).column_count,
{
    lemma_max_cells(t.rows);
    let m = max_cells(t.rows);
    let count: int = if m > 0 { m as int } else { 1 };
    let tv = table_of(t);
    assert forall|i: int| 0 <= i < tv.rows.len() implies (#[trigger] tv.rows[i]).cells.len() <= tv.column_count by {
        assert(tv.rows[i] == final_row(t.rows[i], t.aligns));
        assert(t.rows[i].cells.len() <= m);
    }
    assert(tv.column_count as int == count);
    assert(0 <= 8220int / count <= 8220) by (nonlinear_arith)
        requires count >= 1;
    assert(tv.cell_width as int == 8220int / count);
    assert(count * (8220int / count) <= 8220 && 8220 - count < count * (8220int / count)) by (nonlinear_arith)
        requires count >= 1;
}

/// A table being read.
pub struct TableBuilder {
    pub style: String,
    pub aligns: Vec<MdAlign>,
    pub rows: Vec<TableRow>,
    pub row: Vec<TableCell>,
    pub cell: Vec<Paragraph>,
    pub in_head: bool,
    pub row_head: bool,
    pub cell_head: bool,
}

impl View for TableBuilder {
    type V = TableBuildV;

    open spec fn view(&self) -> TableBuildV {
        TableBuildV {
            style: self.style@,
            aligns: self.aligns@,
            rows: rows_view(self.rows@),
            row: cells_view(self.row@),
            cell: paragraphs_view(self.cell@),
            in_head: self.in_head,
            row_head: self.row_head,
            cell_head: self.cell_head,
        }
    }
}

impl TableBuilder {
    /// A table in `style` with the given column alignments.
    pub fn new(style: &str, aligns: Vec<MdAlign>) -> (t: TableBuilder)
        ensures
            t@ == new_table_v(style@, aligns@),
    {
        let t = TableBuilder {
            style: crate::text::to_string(style),
            aligns,
            rows: Vec::new(),
            row: Vec::new(),
            cell: Vec::new(),
            in_head: false,
            row_head: false,
            cell_head: false,
        };
        assert(t@ =~= new_table_v(style@, aligns@));
        t
    }

    /// A paragraph of the cell being read.
    pub fn push_paragraph(&mut self, p: Paragraph)
        ensures
            final(self)@ == (TableBuildV { cell: old(self)@.cell.push(p@), ..old(self)@ }),
    {
        self.cell.push(p);
        assert(self@ =~= (TableBuildV { cell: old(self)@.cell.push(p@), ..old(self)@ }));
    }

    /// The cell being read closes (see `end_cell_v`).
    pub fn end_cell(&mut self)
        ensures
            final(self)@ == end_cell_v(old(self)@),
    {
        if self.cell.len() == 0 {
            let e = Paragraph { props: None, items: Vec::new() };
            assert(e@ == empty_paragraph()) by {
                assert(items_view(e.items@) =~= seq![]);
            }
            self.cell.push(e);
            assert(paragraphs_view(self.cell@) =~= seq![empty_paragraph()]);
        }
        let mut ps: Vec<Paragraph> = Vec::new();
        std::mem::swap(&mut ps, &mut self.cell);
        let c = TableCell { is_head: self.cell_head, shading: None, paragraphs: ps };
        let ghost before = self.row@;
        self.row.push(c);
        assert(cells_view(self.row@) =~= cells_view(before).push(c@));
        assert(paragraphs_view(self.cell@) =~= seq![]);
        assert(self@ =~= end_cell_v(old(self)@));
    }

    /// The row being read closes (see `end_row_v`).
    pub fn end_row(&mut self)
        ensures
            final(self)@ == end_row_v(old(self)@),
    {
        if self.cell.len() > 0 {
            self.end_cell();
        }
        if self.row.len() > 0 {
            let mut cells: Vec<TableCell> = Vec::new();
            std::mem::swap(&mut cells, &mut self.row);
            let r = TableRow { is_head: self.row_head, cells };
            let ghost before = self.rows@;
            self.rows.push(r);
            assert(rows_view(self.rows@) =~= rows_view(before).push(r@));
            assert(cells_view(self.row@) =~= seq![]);
        }
    }

    /// A row starts (see `start_row_v`).
    pub fn start_row(&mut self)
        ensures
            final(self)@ == start_row_v(old(self)@),
    {
        if self.row.len() > 0 || self.cell.len() > 0 {
            self.end_row();
        }
        self.row = Vec::new();
        self.row_head = self.in_head;
        assert(cells_view(self.row@) =~= seq![]);
    }

    /// A cell starts (see `start_cell_v`).
    pub fn start_cell(&mut self)
        ensures
            final(self)@ == start_cell_v(old(self)@),
    {
        self.cell = Vec::new();
        self.cell_head = self.in_head;
        self.row_head = self.row_head || self.cell_head;
        assert(paragraphs_view(self.cell@) =~= seq![]);
    }

    /// The header starts or ends.
    pub fn set_head(&mut self, in_head: bool)
        ensures
            final(self)@ == (TableBuildV { in_head, ..old(self)@ }),
    {
        self.in_head = in_head;
    }

    /// The table (see `table_of`).
    pub fn into_table(self) -> (t: Table)
        ensures
            t@ == table_of(self@),
    {
        let ghost tv = self@;
        let mut count: usize = 0;
        let mut i: usize = 0;
        while i < self.rows.len()
            invariant
                i <= self.rows.len(),
                count == max_cells(rows_view(self.rows@).take(i as int)),
            decreases self.rows.len() - i,
        {
            assert(rows_view(self.rows@).take(i + 1).drop_last() =~= rows_view(self.rows@).take(i as int));
            if self.rows[i].cells.len() > count {
                count = self.rows[i].cells.len();
            }
            i += 1;
        }
        assert(rows_view(self.rows@).take(self.rows.len() as int) =~= rows_view(self.rows@));
        if count == 0 {
            count = 1;
        }
        let w: usize = 8220 / count;
        let cell_width: i64 = w as i64;
        let aligns = self.aligns;
        let mut rows_in = self.rows;
        let ghost all = rows_in@;
        let n = rows_in.len();
        let mut rows_out: Vec<TableRow> = Vec::new();
        let mut k: usize = 0;
        while k < n
            invariant
                n == all.len(),
                k <= n,
                aligns@ == tv.aligns,
                rows_view(all) == tv.rows,
                rows_out@.len() == k,
                forall|j: int| 0 <= j < k ==> #[trigger] rows_out@[j]@ == final_row(all[j]@, aligns@),
                rows_in@.len() == n - k,
                forall|j: int| 0 <= j < rows_in@.len() ==> #[trigger] rows_in@[j] == all[j + k],
            decreases n - k,
        {
            let row = rows_in.remove(0);
            assert(row == all[k as int]);
            let row_head = row.is_head;
            let mut cells_in = row.cells;
            let ghost call = cells_in@;
            let m = cells_in.len();
            let mut cells_out: Vec<TableCell> = Vec::new();
            let mut c: usize = 0;
            while c < m
                invariant
                    m == call.len(),
                    c <= m,
                    cells_out@.len() == c,
                    forall|j: int| 0 <= j < c ==> #[trigger] cells_out@[j]@ == final_cell(call[j]@, row_head, aligns@, j),
                    cells_in@.len() == m - c,
                    forall|j: int| 0 <= j < cells_in@.len() ==> #[trigger] cells_in@[j] == call[j + c],
                decreases m - c,
            {
                let cell = cells_in.remove(0);
                assert(cell == call[c as int]);
                let head = cell.is_head || row_head;
                let a = if c < aligns.len() { aligns[c] } else { MdAlign::Unset };
                let ps = table_cell_paragraphs(cell.paragraphs, head, a);
                let shading = if head { Some(crate::text::to_string("CCCCCC")) } else { None };
                cells_out.push(TableCell { is_head: head, shading, paragraphs: ps });
                c += 1;
            }
            let r = TableRow { is_head: row_head, cells: cells_out };
            assert(r@ =~= final_row(all[k as int]@, aligns@)) by {
                assert(cells_view(r.cells@) =~= Seq::new(call.len(), |j: int| final_cell(cells_view(call)[j], row_head, aligns@, j)));
            }
            rows_out.push(r);
            k += 1;
        }
        let t = Table { style: self.style, column_count: count, cell_width, rows: rows_out };
        assert(rows_view(t.rows@) =~= table_of(tv).rows);
        t
    }
}

} // verus!
