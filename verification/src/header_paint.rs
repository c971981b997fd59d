//! What is painted in the header, and in which order the layers come.

use vstd::prelude::*;
use crate::header::bottom_of;
use crate::paint::{one_if, run, Side};
use crate::sort::{Direction, Sort};
use crate::style::Style;
use crate::table::{inside, DataTable};

verus! {

/// Something painted in the header. Cells are named by their place in the list.
#[derive(Debug, Clone, Copy, PartialEq, Eq, Structural)]
pub enum HeaderItem {
    /// The ground behind the whole header.
    Ground,
    /// The ground behind a group.
    GroupGround(usize),
    /// The band over the header of a selected column.
    ColumnBand(usize),
    /// The rule that closes a cell off at its right, down to the body. A heavy
    /// one is the rule of a group.
    ClosingRail { cell: usize, heavy: bool },
    /// The rule that opens a group at its left, down to the body.
    OpeningRail(usize),
    /// The rule between a label and the level below it.
    Underline(usize),
    /// The rule between a gutter and the columns.
    GutterDivider(Side),
    /// The ground behind a sort control under the pointer.
    ControlGround(usize),
    /// One half of a sort control, lit if the column runs that way.
    Arrow { cell: usize, up: bool, lit: bool },
    /// The label itself.
    Label(usize),
    /// The rule between the header and the body.
    Divider,
}

/// Which parts of the header the style paints at all.
#[derive(Debug, Clone, Copy, PartialEq, Eq, Structural)]
pub struct HeaderPaints {
    pub ground: bool,
    pub group_ground: bool,
    pub column_bands: bool,
    pub column_dividers: bool,
    pub group_dividers: bool,
    pub underlines: bool,
    pub gutter_dividers: bool,
    pub control_ground: bool,
    pub lit_arrows: bool,
    pub unlit_arrows: bool,
    pub divider: bool,
}

/// Which parts of the header a style paints at all.
pub open spec fn header_paints_of<B, C, F>(style: Style<B, C, F>) -> HeaderPaints {
    HeaderPaints {
        ground: style.header_background is Some,
        group_ground: style.group_background is Some,
        column_bands: style.selected_column_background is Some,
        column_dividers: style.column_divider is Some,
        group_dividers: style.group_divider is Some,
        underlines: style.row_divider is Some,
        gutter_dividers: style.gutter_divider is Some,
        control_ground: style.sort_hovered_background is Some,
        lit_arrows: style.sort_indicator is Some,
        unlit_arrows: style.sort_indicator_inactive is Some,
        divider: style.header_divider is Some,
    }
}

/// Which parts of the header a style paints at all.
pub fn header_paints<B, C, F>(style: &Style<B, C, F>) -> (paints: HeaderPaints)
    ensures
        paints == header_paints_of(*style),
{
    HeaderPaints {
        ground: style.header_background.is_some(),
        group_ground: style.group_background.is_some(),
        column_bands: style.selected_column_background.is_some(),
        column_dividers: style.column_divider.is_some(),
        group_dividers: style.group_divider.is_some(),
        underlines: style.row_divider.is_some(),
        gutter_dividers: style.gutter_divider.is_some(),
        control_ground: style.sort_hovered_background.is_some(),
        lit_arrows: style.sort_indicator.is_some(),
        unlit_arrows: style.sort_indicator_inactive.is_some(),
        divider: style.header_divider.is_some(),
    }
}

/// The part of the header that is painted at once: one band of columns.
#[derive(Debug, Clone, Copy, PartialEq, Eq, Structural)]
pub struct HeaderView {
    pub start: usize,
    pub end: usize,
    /// How many columns have been laid out.
    pub laid_out: usize,
    /// Column whose sort control is under the pointer.
    pub hovered_sort: Option<usize>,
    pub paints: HeaderPaints,
}

/// Does the column run this way?
pub open spec fn runs(sort: Option<Sort>, column: usize, up: bool) -> bool {
    sort matches Some(sort) && sort.column == column && (sort.direction == Direction::Ascending)
        == up
}

impl<E> DataTable<E> {
    pub open spec fn group_ground(&self, view: HeaderView, k: int) -> Seq<HeaderItem> {
        one_if(
            view.paints.group_ground && !self.header_cells@[k].leaf,
            HeaderItem::GroupGround(k as usize),
        )
    }

    /// The band over the header of one column, if the column is selected and in
    /// the band of columns.
    pub open spec fn column_band(&self, view: HeaderView, k: int) -> Seq<HeaderItem> {
        let cell = self.header_cells@[k];

        one_if(
            view.paints.column_bands && cell.leaf && view.start <= cell.start < view.end
                && self.selected_columns@.contains(cell.start),
            HeaderItem::ColumnBand(k as usize),
        )
    }

    /// The rules of one cell. They follow the *spans*, not the leaf columns, so
    /// that a group is not sliced by the dividers of the columns beneath it. The
    /// last cell is not closed off: the gutter's own rule is there.
    pub open spec fn rails(&self, view: HeaderView, k: int) -> Seq<HeaderItem> {
        let cell = self.header_cells@[k];
        let heavy = !cell.leaf && view.paints.group_dividers;

        one_if(
            (heavy || view.paints.column_dividers) && cell.end + 1 < self.columns@.len(),
            HeaderItem::ClosingRail { cell: k as usize, heavy },
        ) + one_if(
            view.paints.group_dividers && !cell.leaf && cell.start > 0,
            HeaderItem::OpeningRail(k as usize),
        ) + one_if(
            view.paints.underlines && bottom_of(cell) < self.header_rows,
            HeaderItem::Underline(k as usize),
        )
    }

    /// One half of a cell's sort control.
    pub open spec fn arrow(&self, view: HeaderView, k: int, up: bool) -> Seq<HeaderItem> {
        let lit = runs(self.sort, self.header_cells@[k].start, up);

        one_if(
            if lit { view.paints.lit_arrows } else { view.paints.unlit_arrows },
            HeaderItem::Arrow { cell: k as usize, up, lit },
        )
    }

    /// The sort control of one cell. The pair of arrows is always the same
    /// shape; only which half is lit changes.
    pub open spec fn control(&self, view: HeaderView, k: int) -> Seq<HeaderItem> {
        if view.laid_out == self.columns@.len() && self.sorts(self.header_cells@[k]) {
            one_if(
                view.hovered_sort == Some(self.header_cells@[k].start)
                    && view.paints.control_ground,
                HeaderItem::ControlGround(k as usize),
            ) + self.arrow(view, k, true) + self.arrow(view, k, false)
        } else {
            seq![]
        }
    }

    /// The label of one cell, if the cell is in the band.
    pub open spec fn label(&self, view: HeaderView, k: int) -> Seq<HeaderItem> {
        one_if(
            view.start <= self.header_cells@[k].start && self.header_cells@[k].end < view.end,
            HeaderItem::Label(k as usize),
        )
    }

    pub open spec fn group_grounds(&self, view: HeaderView) -> Seq<HeaderItem> {
        run(0, self.header_cells@.len() as int, |k: int| self.group_ground(view, k))
    }

    pub open spec fn header_bands(&self, view: HeaderView) -> Seq<HeaderItem> {
        run(0, self.header_cells@.len() as int, |k: int| self.column_band(view, k))
    }

    pub open spec fn all_rails(&self, view: HeaderView) -> Seq<HeaderItem> {
        run(0, self.header_cells@.len() as int, |k: int| self.rails(view, k))
    }

    pub open spec fn gutters(&self, view: HeaderView) -> Seq<HeaderItem> {
        if view.paints.gutter_dividers && view.laid_out > 0 {
            seq![HeaderItem::GutterDivider(Side::Left), HeaderItem::GutterDivider(Side::Right)]
        } else {
            seq![]
        }
    }

    pub open spec fn controls(&self, view: HeaderView) -> Seq<HeaderItem> {
        run(0, self.header_cells@.len() as int, |k: int| self.control(view, k))
    }

    pub open spec fn labels(&self, view: HeaderView) -> Seq<HeaderItem> {
        run(0, self.header_cells@.len() as int, |k: int| self.label(view, k))
    }

    /// Everything painted in one band of the header, in order.
    pub open spec fn header(&self, view: HeaderView) -> Seq<HeaderItem> {
        one_if(view.paints.ground, HeaderItem::Ground) + self.group_grounds(view)
            + self.header_bands(view) + self.all_rails(view) + self.gutters(view) + self.controls(
            view,
        ) + self.labels(view) + one_if(view.paints.divider, HeaderItem::Divider)
    }

    fn add_rails(&self, view: HeaderView, k: usize, out: &mut Vec<HeaderItem>)
        requires
            self.fits(),
            k < self.header_cells@.len(),
        ensures
            final(out)@ == old(out)@ + self.rails(view, k as int),
    {
        let cell = self.header_cells[k];
        let heavy = !cell.leaf && view.paints.group_dividers;
        let columns: usize = self.columns.len();

        assert(inside(cell, self.columns@.len(), self.header_rows));
        if (heavy || view.paints.column_dividers) && cell.end + 1 < columns {
            out.push(HeaderItem::ClosingRail { cell: k, heavy });
        }
        if view.paints.group_dividers && !cell.leaf && cell.start > 0 {
            out.push(HeaderItem::OpeningRail(k));
        }
        if view.paints.underlines && cell.row + cell.row_span < self.header_rows {
            out.push(HeaderItem::Underline(k));
        }
        assert(out@ =~= old(out)@ + self.rails(view, k as int));
    }

    fn add_arrow(&self, view: HeaderView, k: usize, up: bool, out: &mut Vec<HeaderItem>)
        requires
            k < self.header_cells@.len(),
        ensures
            final(out)@ == old(out)@ + self.arrow(view, k as int, up),
    {
        let lit = match self.sort {
            Some(sort) => sort.column == self.header_cells[k].start && (sort.direction
                == Direction::Ascending) == up,
            None => false,
        };
        let painted = if lit {
            view.paints.lit_arrows
        } else {
            view.paints.unlit_arrows
        };

        if painted {
            out.push(HeaderItem::Arrow { cell: k, up, lit });
        }
        assert(out@ =~= old(out)@ + self.arrow(view, k as int, up));
    }

    fn add_control(&self, view: HeaderView, k: usize, out: &mut Vec<HeaderItem>)
        requires
            self.fits(),
            k < self.header_cells@.len(),
        ensures
            final(out)@ == old(out)@ + self.control(view, k as int),
    {
        let cell = self.header_cells[k];

        assert(inside(cell, self.columns@.len(), self.header_rows));
        if view.laid_out == self.columns.len() && self.is_sortable(cell) {
            if view.paints.control_ground {
                if let Some(column) = view.hovered_sort {
                    if column == cell.start {
                        out.push(HeaderItem::ControlGround(k));
                    }
                }
            }
            self.add_arrow(view, k, true, out);
            self.add_arrow(view, k, false, out);
        }
        assert(out@ =~= old(out)@ + self.control(view, k as int));
    }

    fn add_group_grounds(&self, view: HeaderView, out: &mut Vec<HeaderItem>)
        ensures
            final(out)@ == old(out)@ + self.group_grounds(view),
    {
        let ghost items = |k: int| self.group_ground(view, k);

        for k in 0..self.header_cells.len()
            invariant
                items == (|k: int| self.group_ground(view, k)),
                out@ == old(out)@ + run(0, k as int, items),
        {
            if view.paints.group_ground && !self.header_cells[k].leaf {
                out.push(HeaderItem::GroupGround(k));
            }
            assert(out@ =~= old(out)@ + run(0, k + 1, items));
        }
    }

    fn add_header_bands(&self, view: HeaderView, out: &mut Vec<HeaderItem>)
        ensures
            final(out)@ == old(out)@ + self.header_bands(view),
    {
        let ghost items = |k: int| self.column_band(view, k);

        for k in 0..self.header_cells.len()
            invariant
                items == (|k: int| self.column_band(view, k)),
                out@ == old(out)@ + run(0, k as int, items),
        {
            let cell = self.header_cells[k];

            if view.paints.column_bands && cell.leaf && view.start <= cell.start && cell.start
                < view.end && self.selected_columns.contains(&cell.start) {
                out.push(HeaderItem::ColumnBand(k));
            }
            assert(out@ =~= old(out)@ + run(0, k + 1, items));
        }
    }

    fn add_all_rails(&self, view: HeaderView, out: &mut Vec<HeaderItem>)
        requires
            self.fits(),
        ensures
            final(out)@ == old(out)@ + self.all_rails(view),
    {
        let ghost items = |k: int| self.rails(view, k);

        for k in 0..self.header_cells.len()
            invariant
                self.fits(),
                items == (|k: int| self.rails(view, k)),
                out@ == old(out)@ + run(0, k as int, items),
        {
            self.add_rails(view, k, out);
            assert(out@ =~= old(out)@ + run(0, k + 1, items));
        }
    }

    fn add_gutters(&self, view: HeaderView, out: &mut Vec<HeaderItem>)
        ensures
            final(out)@ == old(out)@ + self.gutters(view),
    {
        if view.paints.gutter_dividers && view.laid_out > 0 {
            out.push(HeaderItem::GutterDivider(Side::Left));
            out.push(HeaderItem::GutterDivider(Side::Right));
        }
        assert(out@ =~= old(out)@ + self.gutters(view));
    }

    fn add_controls(&self, view: HeaderView, out: &mut Vec<HeaderItem>)
        requires
            self.fits(),
        ensures
            final(out)@ == old(out)@ + self.controls(view),
    {
        let ghost items = |k: int| self.control(view, k);

        for k in 0..self.header_cells.len()
            invariant
                self.fits(),
                items == (|k: int| self.control(view, k)),
                out@ == old(out)@ + run(0, k as int, items),
        {
            self.add_control(view, k, out);
            assert(out@ =~= old(out)@ + run(0, k + 1, items));
        }
    }

    fn add_labels(&self, view: HeaderView, out: &mut Vec<HeaderItem>)
        ensures
            final(out)@ == old(out)@ + self.labels(view),
    {
        let ghost items = |k: int| self.label(view, k);

        for k in 0..self.header_cells.len()
            invariant
                items == (|k: int| self.label(view, k)),
                out@ == old(out)@ + run(0, k as int, items),
        {
            if view.start <= self.header_cells[k].start && self.header_cells[k].end < view.end {
                out.push(HeaderItem::Label(k));
            }
            assert(out@ =~= old(out)@ + run(0, k + 1, items));
        }
    }

    /// Everything to paint in one band of the header, in order.
    pub fn header_plan(&self, view: HeaderView) -> (plan: Vec<HeaderItem>)
        requires
            self.fits(),
        ensures
            plan@ == self.header(view),
    {
        let mut plan: Vec<HeaderItem> = Vec::new();

        if view.paints.ground {
            plan.push(HeaderItem::Ground);
        }
        assert(plan@ =~= one_if(view.paints.ground, HeaderItem::Ground));
        self.add_group_grounds(view, &mut plan);
        self.add_header_bands(view, &mut plan);
        self.add_all_rails(view, &mut plan);
        self.add_gutters(view, &mut plan);
        self.add_controls(view, &mut plan);
        self.add_labels(view, &mut plan);
        if view.paints.divider {
            plan.push(HeaderItem::Divider);
        }
        assert(plan@ =~= self.header(view));
        plan
    }
}

/// A layer of the table, from the ground up.
#[derive(Debug, Clone, Copy, PartialEq, Eq, Structural)]
pub enum Layer {
    Ground,
    /// The body of the columns from `start` to just before `end`.
    Body { start: usize, end: usize },
    /// The header of those columns.
    Header { start: usize, end: usize },
    /// The seam between frozen and scrolling columns.
    Seam,
    Scrollbars,
    /// The column that is being carried.
    Carried,
    /// The outline of the whole table.
    Frame,
}

/// The layers of a table, in order. `scrolling` and `frozen` say whether there
/// is any room for the scrolling and for the frozen columns.
pub open spec fn layers_of(
    sticky: usize,
    columns: usize,
    scrolling: bool,
    frozen: bool,
    seam: bool,
    carried: bool,
    framed: bool,
) -> Seq<Layer> {
    let loose = sticky < columns && scrolling;
    let stuck = 0 < sticky && frozen;

    seq![Layer::Ground] + one_if(loose, Layer::Body { start: sticky, end: columns }) + one_if(
        stuck,
        Layer::Body { start: 0, end: sticky },
    ) + one_if(loose, Layer::Header { start: sticky, end: columns }) + one_if(
        stuck,
        Layer::Header { start: 0, end: sticky },
    ) + one_if(stuck && seam, Layer::Seam) + seq![Layer::Scrollbars] + one_if(
        carried,
        Layer::Carried,
    ) + one_if(framed, Layer::Frame)
}

/// The layers of a table, in order: the frozen columns over the scrolling ones,
/// the header over the body, the seam over both, then the scrollbars, the
/// carried column, and the frame over everything.
pub fn layers(
    sticky: usize,
    columns: usize,
    scrolling: bool,
    frozen: bool,
    seam: bool,
    carried: bool,
    framed: bool,
) -> (layers: Vec<Layer>)
    ensures
        layers@ == layers_of(sticky, columns, scrolling, frozen, seam, carried, framed),
{
    let mut layers: Vec<Layer> = Vec::new();
    let loose = sticky < columns && scrolling;
    let stuck = 0 < sticky && frozen;

    layers.push(Layer::Ground);
    if loose {
        layers.push(Layer::Body { start: sticky, end: columns });
    }
    if stuck {
        layers.push(Layer::Body { start: 0, end: sticky });
    }
    if loose {
        layers.push(Layer::Header { start: sticky, end: columns });
    }
    if stuck {
        layers.push(Layer::Header { start: 0, end: sticky });
    }
    if stuck && seam {
        layers.push(Layer::Seam);
    }
    layers.push(Layer::Scrollbars);
    if carried {
        layers.push(Layer::Carried);
    }
    if framed {
        layers.push(Layer::Frame);
    }
    assert(layers@ =~= layers_of(sticky, columns, scrolling, frozen, seam, carried, framed));
    layers
}

} // verus!
