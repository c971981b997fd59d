//! The table as a value: what it shows and what it reports.
//!
//! Header elements come first, then body cells row by row, in one list, so that
//! the cells of a range of rows are a range of the list.

use std::collections::BTreeSet;
use vstd::prelude::*;
use crate::header::{
    flatten, forest_contents, forest_nodes, forest_specs, frozen_columns,
    header_rows, ColumnSpec, HeaderCell, HeaderNode,
};
use crate::header_laws::{
    cells_and_labels_pair_up, cells_stay_in_the_header, forest_filled, frozen_columns_are_columns,
    header_cells,
};
use crate::px::Px;
use crate::scroll::{visible_rows, window, Policy};
use crate::selection::Mode;
use crate::sizing::{Overflow, Sizing};
use crate::sort::Sort;

verus! {

/// Bit pattern of 4, the default half-width of the grab zone around a column edge.
pub const FOUR: u32 = 0x4080_0000;

/// Bit pattern of 6, the default padding above and below.
pub const SIX: u32 = 0x40c0_0000;

/// Bit pattern of 8, the default gutter.
pub const EIGHT: u32 = 0x4100_0000;

/// Bit pattern of 10, the default padding at the sides and thickness of a scrollbar.
pub const TEN: u32 = 0x4120_0000;

/// Bit pattern of 32, the default floor a column can be dragged to.
pub const THIRTY_TWO: u32 = 0x4200_0000;

/// Rows measured by default when deriving intrinsic widths.
pub const SAMPLE: usize = 200;

/// Space between the edges of a cell and its contents.
#[derive(Debug, Clone, Copy, PartialEq)]
pub struct Padding {
    pub top: Px,
    pub right: Px,
    pub bottom: Px,
    pub left: Px,
}

/// A table whose labels and cells are elements of type `E`.
pub struct DataTable<E> {
    /// Header elements first, then body cells row by row.
    pub elements: Vec<E>,
    pub header_len: usize,
    pub header_cells: Vec<HeaderCell>,
    pub header_rows: usize,
    pub columns: Vec<ColumnSpec>,
    pub row_count: usize,
    pub sticky_columns: usize,
    pub spacing: Px,
    pub padding: Padding,
    pub overflow: Overflow,
    pub measure_sample: Option<usize>,
    pub min_row_height: Px,
    pub scrollbar_width: Px,
    pub vertical: Policy,
    pub horizontal: Policy,
    pub mode: Mode,
    pub selected: BTreeSet<usize>,
    /// Does the application listen for row selections, column selections...
    pub hears_rows: bool,
    pub column_mode: Mode,
    pub selected_columns: BTreeSet<usize>,
    pub hears_columns: bool,
    pub sort: Option<Sort>,
    pub hears_sort: bool,
    pub hears_right_click: bool,
    pub hears_copy: bool,
    pub hears_reorder: bool,
    pub cell_mode: Mode,
    pub selected_cells: BTreeSet<(usize, usize)>,
    pub hears_cells: bool,
    pub gutter: Px,
    pub resizable: bool,
    /// Half-width of the grab zone either side of a column edge.
    pub resize_tolerance: Px,
    /// Floor a column can be dragged to.
    pub min_column_width: Px,
}

/// The columns and rows that a header cell claims lie inside the header.
pub open spec fn inside(cell: HeaderCell, columns: nat, rows: usize) -> bool {
    &&& cell.start <= cell.end < columns
    &&& cell.top <= cell.row < cell.row + cell.row_span <= rows
}

/// The row that is appended for these cells: extra ones are dropped, missing
/// ones padded with blanks.
pub open spec fn is_row<E, F: Fn() -> E>(row: Seq<E>, cells: Seq<E>, columns: nat, blank: F) -> bool {
    &&& row.len() == columns
    &&& forall|i: int|
        0 <= i < columns ==> if i < cells.len() {
            #[trigger] row[i] == cells[i]
        } else {
            call_ensures(blank, (), row[i])
        }
}

impl<E> DataTable<E> {
    /// Every row has an element for each column.
    pub open spec fn wf(&self) -> bool {
        &&& self.elements@.len() == self.header_len + self.row_count * self.columns@.len()
        &&& self.header_cells@.len() == self.header_len
    }

    /// Every header cell lies inside the header, and the frozen columns are
    /// columns.
    pub open spec fn fits(&self) -> bool {
        &&& forall|k: int|
            0 <= k < self.header_cells@.len() ==> inside(
                #[trigger] self.header_cells@[k],
                self.columns@.len(),
                self.header_rows,
            )
        &&& forall|k: int|
            0 <= k < self.header_cells@.len() ==> (#[trigger] self.header_cells@[k]).element
                < self.header_len
        &&& self.sticky_columns <= self.columns@.len()
    }

    /// Does every header cell lie inside the header, and is every frozen column
    /// a column? A group without children at the very end has no column to
    /// stand over, so a table with one does not.
    pub fn is_sound(&self) -> (sound: bool)
        ensures
            sound == self.fits(),
    {
        let columns: usize = self.columns.len();

        if self.sticky_columns > columns {
            return false;
        }
        for k in 0..self.header_cells.len()
            invariant
                columns == self.columns@.len(),
                self.sticky_columns <= columns,
                forall|i: int|
                    0 <= i < k ==> inside(
                        #[trigger] self.header_cells@[i],
                        self.columns@.len(),
                        self.header_rows,
                    ),
                forall|i: int|
                    0 <= i < k ==> (#[trigger] self.header_cells@[i]).element < self.header_len,
        {
            let cell = self.header_cells[k];

            if cell.start > cell.end || cell.end >= columns || cell.top > cell.row || cell.row_span
                == 0 || cell.row >= self.header_rows || cell.row_span > self.header_rows - cell.row
                || cell.element >= self.header_len {
                assert(!inside(
                    self.header_cells@[k as int],
                    self.columns@.len(),
                    self.header_rows,
                ) || self.header_cells@[k as int].element >= self.header_len);
                return false;
            }
        }
        true
    }

    /// Element of a body cell.
    pub open spec fn cell_element(&self, row: int, column: int) -> E {
        self.elements@[self.header_len + row * self.columns@.len() + column]
    }

    /// A table with this header and no rows, with nothing else said about it.
    pub open spec fn is_fresh(&self, headers: Seq<HeaderNode<E>>) -> bool {
        &&& self.elements@ == forest_contents(headers)
        &&& self.header_cells@ == header_cells(headers)
        &&& self.header_rows == header_rows(headers)
        &&& self.columns@ == forest_specs(headers)
        &&& self.row_count == 0
        &&& self.sticky_columns == frozen_columns(headers)
        &&& self.spacing == (Px { bits: 0 })
        &&& self.padding == (Padding {
            top: (Px { bits: SIX }),
            right: (Px { bits: TEN }),
            bottom: (Px { bits: SIX }),
            left: (Px { bits: TEN }),
        })
        &&& self.overflow == Overflow::Scroll
        &&& self.measure_sample == Some(SAMPLE)
        &&& self.min_row_height == (Px { bits: 0 })
        &&& self.scrollbar_width == (Px { bits: TEN })
        &&& self.vertical == Policy::Auto
        &&& self.horizontal == Policy::Auto
        &&& self.mode == Mode::Off
        &&& self.column_mode == Mode::Off
        &&& self.cell_mode == Mode::Off
        &&& self.selected@.is_empty()
        &&& self.selected_columns@.is_empty()
        &&& self.selected_cells@.is_empty()
        &&& !self.hears_rows && !self.hears_columns && !self.hears_cells
        &&& !self.hears_sort && !self.hears_right_click && !self.hears_copy
        &&& !self.hears_reorder
        &&& self.sort is None
        &&& self.gutter == (Px { bits: EIGHT })
        &&& self.resizable
        &&& self.resize_tolerance == (Px { bits: FOUR })
        &&& self.min_column_width == (Px { bits: THIRTY_TWO })
    }

    pub fn new(headers: Vec<HeaderNode<E>>) -> (table: Self)
        requires
            forest_nodes(headers@) < usize::MAX,
        ensures
            table.wf(),
            table.is_fresh(headers@),
            forest_filled(headers@) ==> table.fits(),
    {
        let ghost nodes = headers@;
        let flat = flatten(headers);
        let header_len: usize = flat.elements.len();

        proof {
            cells_and_labels_pair_up(nodes);
            if forest_filled(nodes) {
                assert forall|k: int| 0 <= k < flat.cells@.len() implies inside(
                    #[trigger] flat.cells@[k],
                    flat.columns@.len(),
                    flat.rows,
                ) && flat.cells@[k].element < header_len by {
                    cells_stay_in_the_header(nodes, k);
                }
                frozen_columns_are_columns(nodes);
            }
        }
        DataTable {
            elements: flat.elements,
            header_len,
            header_cells: flat.cells,
            header_rows: flat.rows,
            columns: flat.columns,
            row_count: 0,
            sticky_columns: flat.sticky_columns,
            spacing: Px { bits: 0 },
            padding: Padding {
                top: Px { bits: SIX },
                right: Px { bits: TEN },
                bottom: Px { bits: SIX },
                left: Px { bits: TEN },
            },
            overflow: Overflow::default(),
            measure_sample: Some(SAMPLE),
            min_row_height: Px { bits: 0 },
            scrollbar_width: Px { bits: TEN },
            vertical: Policy::Auto,
            horizontal: Policy::Auto,
            mode: Mode::Off,
            selected: BTreeSet::new(),
            hears_rows: false,
            column_mode: Mode::Off,
            selected_columns: BTreeSet::new(),
            hears_columns: false,
            sort: None,
            hears_sort: false,
            hears_right_click: false,
            hears_copy: false,
            hears_reorder: false,
            cell_mode: Mode::Off,
            selected_cells: BTreeSet::new(),
            hears_cells: false,
            gutter: Px { bits: EIGHT },
            resizable: true,
            resize_tolerance: Px { bits: FOUR },
            min_column_width: Px { bits: THIRTY_TWO },
        }
    }

    /// Append one row. Extra cells are dropped and missing cells are padded with
    /// what `blank` makes, so a malformed row degrades instead of failing.
    pub fn push<F: Fn() -> E>(&mut self, cells: Vec<E>, blank: F)
        requires
            old(self).wf(),
            old(self).row_count < usize::MAX,
            cells@.len() < old(self).columns@.len() ==> call_requires(blank, ()),
        ensures
            final(self).wf(),
            final(self).row_count == old(self).row_count + 1,
            exists|row: Seq<E>| #[trigger]
                is_row(row, cells@, old(self).columns@.len(), blank) && final(self).elements@
                    == old(self).elements@ + row,
            *final(self) == (DataTable {
                elements: final(self).elements,
                row_count: final(self).row_count,
                ..*old(self)
            }),
    {
        let ghost before = self.elements@;
        let ghost given = cells@;
        let mut count: usize = 0;
        let columns: usize = self.columns.len();

        for cell in it: cells
            invariant
                it.seq() == given,
                columns == self.columns@.len(),
                count == (if it.index() < columns { it.index() } else { columns as int }),
                self.elements@ == before + given.take(count as int),
                *self == (DataTable { elements: self.elements, ..*old(self) }),
        {
            if count < columns {
                self.elements.push(cell);
                count = count + 1;
                assert(given.take(count as int) =~= given.take(count - 1).push(cell));
            }
        }
        while count < columns
            invariant
                columns == self.columns@.len(),
                count <= columns,
                given.len() < columns ==> call_requires(blank, ()),
                given.len() < columns ==> given.len() <= count,
                given.len() >= columns ==> count == columns,
                self.elements@.len() == before.len() + count,
                self.elements@.take(before.len() as int) == before,
                forall|i: int|
                    0 <= i < count ==> if i < given.len() {
                        #[trigger] self.elements@[before.len() + i] == given[i]
                    } else {
                        call_ensures(blank, (), self.elements@[before.len() + i])
                    },
                *self == (DataTable { elements: self.elements, ..*old(self) }),
            decreases columns - count,
        {
            let ghost here = self.elements@;

            self.elements.push(blank());
            assert(self.elements@.take(before.len() as int) =~= here.take(before.len() as int));
            count = count + 1;
        }
        proof {
            let row = self.elements@.skip(before.len() as int);

            assert(is_row(row, given, columns as nat, blank)) by {
                assert forall|i: int| 0 <= i < columns implies if i < given.len() {
                    #[trigger] row[i] == given[i]
                } else {
                    call_ensures(blank, (), row[i])
                } by {
                    assert(row[i] == self.elements@[before.len() + i]);
                }
            }
            assert(self.elements@ =~= before + row);
            assert((self.row_count + 1) * columns == self.row_count * columns + columns)
                by (nonlinear_arith);
        }
        self.row_count = self.row_count + 1;
    }

    /// The table with one more row.
    pub fn row<F: Fn() -> E>(self, cells: Vec<E>, blank: F) -> (table: Self)
        requires
            self.wf(),
            self.row_count < usize::MAX,
            cells@.len() < self.columns@.len() ==> call_requires(blank, ()),
        ensures
            table.wf(),
            table.row_count == self.row_count + 1,
            exists|row: Seq<E>| #[trigger]
                is_row(row, cells@, self.columns@.len(), blank) && table.elements@ == self.elements@
                    + row,
            table == (DataTable {
                elements: table.elements,
                row_count: table.row_count,
                ..self
            }),
    {
        let mut table = self;

        table.push(cells, blank);
        table
    }

    /// Fill the body from a slice of data with a per-cell view function.
    pub fn rows<T, F: Fn(&T, usize) -> E>(self, data: &[T], view: F) -> (table: Self)
        requires
            self.wf(),
            self.row_count + data@.len() <= usize::MAX,
            forall|i: int, c: usize|
                0 <= i < data@.len() && c < self.columns@.len() ==> #[trigger] call_requires(
                    view,
                    (&data@[i], c),
                ),
        ensures
            table.wf(),
            table.row_count == self.row_count + data@.len(),
            table.elements@.len() == self.elements@.len() + data@.len() * self.columns@.len(),
            forall|k: int| 0 <= k < self.elements@.len() ==> table.elements@[k] == self.elements@[k],
            forall|i: int, c: int|
                0 <= i < data@.len() && 0 <= c < self.columns@.len() ==> call_ensures(
                    view,
                    (&data@[i], c as usize),
                    #[trigger] table.cell_element(self.row_count + i, c),
                ),
            table == (DataTable {
                elements: table.elements,
                row_count: table.row_count,
                ..self
            }),
    {
        let ghost first = self;
        let mut table = self;
        let columns: usize = table.columns.len();

        for i in 0..data.len()
            invariant
                first.wf(),
                table.wf(),
                columns == first.columns@.len(),
                table.row_count == first.row_count + i,
                first.row_count + data@.len() <= usize::MAX,
                forall|k: int, c: usize|
                    0 <= k < data@.len() && c < columns ==> #[trigger] call_requires(
                        view,
                        (&data@[k], c),
                    ),
                table.elements@.len() == first.elements@.len() + i * columns,
                forall|k: int|
                    0 <= k < first.elements@.len() ==> table.elements@[k] == first.elements@[k],
                forall|k: int, c: int|
                    0 <= k < i && 0 <= c < columns ==> call_ensures(
                        view,
                        (&data@[k], c as usize),
                        #[trigger] table.cell_element(first.row_count + k, c),
                    ),
                table == (DataTable {
                    elements: table.elements,
                    row_count: table.row_count,
                    ..first
                }),
        {
            let ghost before = table;
            let mut column: usize = 0;

            while column < columns
                invariant
                    i < data@.len(),
                    column <= columns,
                    columns == first.columns@.len(),
                    forall|k: int, c: usize|
                        0 <= k < data@.len() && c < columns ==> #[trigger] call_requires(
                            view,
                            (&data@[k], c),
                        ),
                    table.elements@.len() == before.elements@.len() + column,
                    table.elements@.take(before.elements@.len() as int) == before.elements@,
                    forall|c: int|
                        0 <= c < column ==> call_ensures(
                            view,
                            (&data@[i as int], c as usize),
                            #[trigger] table.elements@[before.elements@.len() + c],
                        ),
                    table == (DataTable { elements: table.elements, ..before }),
                decreases columns - column,
            {
                let ghost here = table.elements@;
                let element = view(&data[i], column);

                table.elements.push(element);
                assert(table.elements@.take(before.elements@.len() as int) =~= here.take(
                    before.elements@.len() as int,
                ));
                column = column + 1;
            }
            table.row_count = table.row_count + 1;
            proof {
                assert((i + 1) * columns == i * columns + columns) by (nonlinear_arith);
                assert((before.row_count + 1) * columns == before.row_count * columns + columns)
                    by (nonlinear_arith);
                assert forall|k: int| 0 <= k < before.elements@.len() implies table.elements@[k]
                    == before.elements@[k] by {
                    assert(table.elements@.take(before.elements@.len() as int)[k]
                        == table.elements@[k]);
                }
                assert forall|k: int, c: int| 0 <= k < i + 1 && 0 <= c < columns implies call_ensures(
                    view,
                    (&data@[k], c as usize),
                    #[trigger] table.cell_element(first.row_count + k, c),
                ) by {
                    let at = first.row_count + k;

                    if k < i {
                        assert((at + 1) * columns <= before.row_count * columns) by (nonlinear_arith)
                            requires
                                at + 1 <= before.row_count,
                                columns >= 0,
                        ;
                        assert((at + 1) * columns == at * columns + columns) by (nonlinear_arith);
                        assert(0 <= at * columns) by (nonlinear_arith)
                            requires
                                0 <= at,
                                columns >= 0,
                        ;
                        assert(table.cell_element(at, c) == before.cell_element(at, c));
                    } else {
                        assert(table.cell_element(at, c) == table.elements@[before.elements@.len()
                            + c]);
                    }
                }
            }
        }
        table
    }

    /// Space between two columns.
    pub fn spacing(self, spacing: Px) -> (table: Self)
        ensures
            table == (DataTable { spacing, ..self }),
    {
        let mut table = self;

        table.spacing = spacing;
        table
    }

    /// Space between a cell's edges and its contents.
    pub fn padding(self, padding: Padding) -> (table: Self)
        ensures
            table == (DataTable { padding, ..self }),
    {
        let mut table = self;

        table.padding = padding;
        table
    }

    /// What to do when the columns are wider than the table.
    pub fn overflow(self, overflow: Overflow) -> (table: Self)
        ensures
            table == (DataTable { overflow, ..self }),
    {
        let mut table = self;

        table.overflow = overflow;
        table
    }

    /// Measure every row when deriving intrinsic widths. Accurate but slow.
    pub fn measure_all(self) -> (table: Self)
        ensures
            table == (DataTable { measure_sample: None, ..self }),
    {
        let mut table = self;

        table.measure_sample = None;
        table
    }

    /// Measure this many rows when deriving intrinsic widths.
    pub fn measure_sample(self, rows: usize) -> (table: Self)
        ensures
            table == (DataTable { measure_sample: Some(rows), ..self }),
    {
        let mut table = self;

        table.measure_sample = Some(rows);
        table
    }

    /// The height a row has at least.
    pub fn min_row_height(self, height: Px) -> (table: Self)
        ensures
            table == (DataTable { min_row_height: height, ..self }),
    {
        let mut table = self;

        table.min_row_height = height;
        table
    }

    /// How thick the scrollbars are.
    pub fn scrollbar_width(self, width: Px) -> (table: Self)
        ensures
            table == (DataTable { scrollbar_width: width, ..self }),
    {
        let mut table = self;

        table.scrollbar_width = width;
        table
    }

    /// Whether there is a vertical scrollbar.
    pub fn vertical_scroll(self, policy: Policy) -> (table: Self)
        ensures
            table == (DataTable { vertical: policy, ..self }),
    {
        let mut table = self;

        table.vertical = policy;
        table
    }

    /// Whether there is a horizontal scrollbar.
    pub fn horizontal_scroll(self, policy: Policy) -> (table: Self)
        ensures
            table == (DataTable { horizontal: policy, ..self }),
    {
        let mut table = self;

        table.horizontal = policy;
        table
    }

    /// Show sort controls on columns marked sortable and report clicks.
    ///
    /// The table **does not reorder anything**: it draws the sort it is handed and
    /// tells what it should become.
    pub fn sorting(self, sort: Option<Sort>) -> (table: Self)
        ensures
            table == (DataTable { sort, hears_sort: true, ..self }),
    {
        let mut table = self;

        table.sort = sort;
        table.hears_sort = true;
        table
    }

    /// Let leaf columns be dragged to new positions, and report where they land.
    ///
    /// A column may only move **among its own siblings**, and never across the
    /// frozen boundary.
    pub fn on_reorder(self) -> (table: Self)
        ensures
            table == (DataTable { hears_reorder: true, ..self }),
    {
        let mut table = self;

        table.hears_reorder = true;
        table
    }

    /// Report the copy shortcut while the table has focus and something is
    /// selected.
    pub fn on_copy(self) -> (table: Self)
        ensures
            table == (DataTable { hears_copy: true, ..self }),
    {
        let mut table = self;

        table.hears_copy = true;
        table
    }

    /// Report right-clicks, with the cell they landed on.
    pub fn on_right_click(self) -> (table: Self)
        ensures
            table == (DataTable { hears_right_click: true, ..self }),
    {
        let mut table = self;

        table.hears_right_click = true;
        table
    }

    /// Blank strip at each side of the table, inside it but belonging to no
    /// column: the place to click that unambiguously means "this row".
    pub fn gutter(self, gutter: Px) -> (table: Self)
        ensures
            table == (DataTable { gutter, ..self }),
    {
        let mut table = self;

        table.gutter = gutter;
        table
    }

    /// Allow dragging leaf column edges in the header. On by default.
    pub fn resizable(self, resizable: bool) -> (table: Self)
        ensures
            table == (DataTable { resizable, ..self }),
    {
        let mut table = self;

        table.resizable = resizable;
        table
    }

    /// Floor a column can be dragged to.
    pub fn min_column_width(self, width: Px) -> (table: Self)
        ensures
            table == (DataTable { min_column_width: width, ..self }),
    {
        let mut table = self;

        table.min_column_width = width;
        table
    }

    /// Enable row selection and report changes.
    ///
    /// The table does not keep the selection: it renders the set it is handed and
    /// reports what the set should become.
    pub fn selection(self, mode: Mode, selected: &BTreeSet<usize>) -> (table: Self)
        ensures
            table.selected@ == selected@,
            table == (DataTable { mode, selected: table.selected, hears_rows: true, ..self }),
    {
        let mut table = self;

        table.mode = mode;
        table.selected = selected.clone();
        table.hears_rows = true;
        table
    }

    /// Enable column selection by clicking header cells. Clicking a group header
    /// selects every leaf column beneath it.
    pub fn column_selection(self, mode: Mode, selected: &BTreeSet<usize>) -> (table: Self)
        ensures
            table.selected_columns@ == selected@,
            table == (DataTable {
                column_mode: mode,
                selected_columns: table.selected_columns,
                hears_columns: true,
                ..self
            }),
    {
        let mut table = self;

        table.column_mode = mode;
        table.selected_columns = selected.clone();
        table.hears_columns = true;
        table
    }

    /// Enable cell selection.
    ///
    /// This changes what a body click means: a click inside any column now selects
    /// that cell, and the gutter is the only place left that means "this row".
    /// Cell, row and column selections are mutually exclusive.
    pub fn cell_selection(self, mode: Mode, selected: &BTreeSet<(usize, usize)>) -> (table: Self)
        ensures
            table.selected_cells@ == selected@,
            table == (DataTable {
                cell_mode: mode,
                selected_cells: table.selected_cells,
                hears_cells: true,
                ..self
            }),
    {
        let mut table = self;

        table.cell_mode = mode;
        table.selected_cells = selected.clone();
        table.hears_cells = true;
        table
    }

    /// The sizing policies of the columns.
    pub fn sizing(&self) -> (sizing: Vec<Sizing>)
        ensures
            sizing@ == self.columns@.map_values(|column: ColumnSpec| column.sizing),
    {
        let mut sizing: Vec<Sizing> = Vec::new();

        for i in 0..self.columns.len()
            invariant
                sizing@ == self.columns@.take(i as int).map_values(
                    |column: ColumnSpec| column.sizing,
                ),
        {
            sizing.push(self.columns[i].sizing);
        }
        assert(self.columns@.take(self.columns@.len() as int) =~= self.columns@);
        sizing
    }

    /// Where the element of a body cell is among the elements.
    pub fn cell_index(&self, row: usize, column: usize) -> (index: usize)
        requires
            self.wf(),
            row < self.row_count,
            column < self.columns@.len(),
        ensures
            index == self.header_len + row * self.columns@.len() + column,
            self.header_len <= index < self.elements@.len(),
    {
        let columns: usize = self.columns.len();
        let total: usize = self.elements.len();

        proof {
            assert((row + 1) * columns <= self.row_count * columns) by (nonlinear_arith)
                requires
                    row + 1 <= self.row_count,
                    columns >= 0,
            ;
            assert((row + 1) * columns == row * columns + columns) by (nonlinear_arith);
            assert(row * columns >= 0) by (nonlinear_arith);
            assert(row * columns + columns + self.header_len <= total);
        }
        self.header_len + row * columns + column
    }

    /// The body element indices belonging to the rows currently on screen.
    ///
    /// A row range maps onto a single index range with no gaps, which is what
    /// lets a pass be culled to the viewport with one range rather than a
    /// rectangle test per child.
    pub fn visible_body_range(&self, flat: bool, top: usize, bottom: usize) -> (range: (
        usize,
        usize,
    ))
        requires
            self.wf(),
        ensures
            range.0 == self.header_len + window(flat, top, bottom, self.row_count).0
                * self.columns@.len(),
            range.1 == self.header_len + window(flat, top, bottom, self.row_count).1
                * self.columns@.len(),
            self.header_len <= range.0 <= self.elements@.len(),
            self.header_len <= range.1 <= self.elements@.len(),
    {
        let (first, last) = visible_rows(flat, top, bottom, self.row_count);
        let columns: usize = self.columns.len();
        let total: usize = self.elements.len();

        proof {
            assert(0 <= first * columns <= self.row_count * columns) by (nonlinear_arith)
                requires
                    0 <= first <= self.row_count,
                    columns >= 0,
            ;
            assert(0 <= last * columns <= self.row_count * columns) by (nonlinear_arith)
                requires
                    0 <= last <= self.row_count,
                    columns >= 0,
            ;
            assert(self.header_len + self.row_count * columns == total);
        }
        (self.header_len + first * columns, self.header_len + last * columns)
    }

    /// Does the element at this index belong to a frozen column?
    pub open spec fn freezes(&self, index: int) -> bool {
        if index < self.header_len {
            self.header_cells@[index].start < self.sticky_columns
        } else {
            (index - self.header_len) % (self.columns@.len() as int) < self.sticky_columns
        }
    }

    /// Does the element at this index belong to a frozen column? The cursor is
    /// handed to it as it is then, and not shifted by the scroll offset.
    pub fn is_frozen(&self, index: usize) -> (frozen: bool)
        requires
            self.wf(),
            index < self.elements@.len(),
        ensures
            frozen == self.freezes(index as int),
    {
        let columns: usize = self.columns.len();

        if index < self.header_len {
            self.header_cells[index].start < self.sticky_columns
        } else {
            proof {
                assert(columns > 0) by (nonlinear_arith)
                    requires
                        self.row_count * columns > 0,
                        columns >= 0,
                ;
            }
            (index - self.header_len) % columns < self.sticky_columns
        }
    }

    /// Is there a sort control on this header cell?
    pub open spec fn sorts(&self, cell: HeaderCell) -> bool {
        self.hears_sort && cell.leaf && self.columns@[cell.start as int].sortable
    }

    /// Is there a sort control on this header cell?
    pub fn is_sortable(&self, cell: HeaderCell) -> (sortable: bool)
        requires
            cell.start < self.columns@.len(),
        ensures
            sortable == self.sorts(cell),
    {
        self.hears_sort && cell.leaf && self.columns[cell.start].sortable
    }
}

/// The element of a body cell is frozen exactly if its column is.
pub proof fn a_cell_is_frozen_with_its_column<E>(table: DataTable<E>, row: int, column: int)
    requires
        0 <= row,
        0 <= column < table.columns@.len(),
    ensures
        table.freezes(table.header_len + row * table.columns@.len() + column) <==> column
            < table.sticky_columns,
{
    let columns = table.columns@.len() as int;

    vstd::arithmetic::div_mod::lemma_fundamental_div_mod_converse(
        row * columns + column,
        columns,
        row,
        column,
    );
    assert(row * columns >= 0) by (nonlinear_arith)
        requires
            row >= 0,
            columns >= 0,
    ;
}

/// The elements of a range of rows are a range of the elements: exactly the
/// indices of the cells in those rows.
pub proof fn rows_on_screen_are_a_range_of_elements<E>(
    table: DataTable<E>,
    first: int,
    last: int,
    row: int,
    column: int,
)
    requires
        table.wf(),
        0 <= first <= last <= table.row_count,
        0 <= row < table.row_count,
        0 <= column < table.columns@.len(),
    ensures
        ({
            let columns = table.columns@.len();
            let index = table.header_len + row * columns + column;

            table.header_len + first * columns <= index < table.header_len + last * columns
                <==> first <= row < last
        }),
{
    let columns = table.columns@.len() as int;

    assert((row + 1) * columns == row * columns + columns) by (nonlinear_arith);
    if row < first {
        assert((row + 1) * columns <= first * columns) by (nonlinear_arith)
            requires
                row + 1 <= first,
                columns >= 0,
        ;
    } else {
        assert(first * columns <= row * columns) by (nonlinear_arith)
            requires
                first <= row,
                columns >= 0,
        ;
    }
    if row < last {
        assert((row + 1) * columns <= last * columns) by (nonlinear_arith)
            requires
                row + 1 <= last,
                columns >= 0,
        ;
    } else {
        assert(last * columns <= row * columns) by (nonlinear_arith)
            requires
                last <= row,
                columns >= 0,
        ;
    }
}

} // verus!
