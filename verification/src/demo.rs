//! The demonstration: an application that holds what the table reports.

use std::collections::BTreeSet;
use vstd::prelude::*;
use crate::columns::{header_trees, headers};
use crate::header::{trees_of, HeaderNode};
use crate::interaction::Click;
use crate::records::{generate, is_sorted, record_of, rows_of, sorted, Record, RowCount, SortKey};
use crate::selection::{
    encloses, grid, in_order, is_grid, listing, members, reorder, reordered, Bounds, CellPosition,
};
use crate::selection_laws::{moved, the_enclosing_rectangle_is_unique};
use crate::sizing::Overflow;
use crate::sort::{Direction, Sort};
use crate::style::Cell;
use crate::text::{count_lines, decimal, digits, join, joined, line_count, views};

verus! {

broadcast use vstd::laws_cmp::group_laws_cmp;

/// Columns that carry data. The last one holds buttons, so it is not one.
pub const DATA_COLUMNS: usize = 7;

/// Columns there are.
pub const ALL_COLUMNS: usize = 8;

#[derive(Debug, Clone)]
pub enum Message {
    Open(u32),
    SelectionChanged(BTreeSet<usize>),
    ColumnsChanged(BTreeSet<usize>),
    RowsChanged(RowCount),
    OverflowChanged(Overflow),
    ToggleGroups(bool),
    ToggleStripes(bool),
    ToggleConditional(bool),
    SortChanged(Option<Sort>),
    RightClicked(Click),
    ToggleCells(bool),
    ToggleSticky(bool),
    CellsChanged(BTreeSet<(usize, usize)>),
    Copy,
    Reordered(usize, usize),
}

#[derive(Debug)]
pub struct Demo {
    pub records: Vec<Record>,
    pub rows: RowCount,
    pub overflow: Overflow,
    pub groups: bool,
    pub stripes: bool,
    pub conditional: bool,
    pub cells: bool,
    pub sticky: bool,
    /// Display position -> logical column. Reordering permutes this; every
    /// index the table hands back is a *display* position and is read through
    /// it before touching the data.
    pub order: Vec<usize>,
    pub sort: Option<Sort>,
    pub selected_cells: BTreeSet<(usize, usize)>,
    pub selected: BTreeSet<usize>,
    pub selected_columns: BTreeSet<usize>,
    pub status: String,
}

/// The demonstration, with its collections as mathematical ones.
pub struct Scene {
    pub records: Seq<Record>,
    pub rows: RowCount,
    pub overflow: Overflow,
    pub groups: bool,
    pub stripes: bool,
    pub conditional: bool,
    pub cells: bool,
    pub sticky: bool,
    pub order: Seq<usize>,
    pub sort: Option<Sort>,
    pub selected_cells: Set<(usize, usize)>,
    pub selected: Set<usize>,
    pub selected_columns: Set<usize>,
    pub status: Seq<char>,
}

impl View for Demo {
    type V = Scene;

    open spec fn view(&self) -> Scene {
        Scene {
            records: self.records@,
            rows: self.rows,
            overflow: self.overflow,
            groups: self.groups,
            stripes: self.stripes,
            conditional: self.conditional,
            cells: self.cells,
            sticky: self.sticky,
            order: self.order@,
            sort: self.sort,
            selected_cells: self.selected_cells@,
            selected: self.selected@,
            selected_columns: self.selected_columns@,
            status: self.status@,
        }
    }
}

/// The logical column shown at this position.
pub open spec fn logical(order: Seq<usize>, column: usize) -> usize {
    if column < order.len() {
        order[column as int]
    } else {
        column
    }
}

/// What the records are sorted by, in logical terms.
pub open spec fn key_of(order: Seq<usize>, sort: Option<Sort>) -> Option<SortKey> {
    match sort {
        Some(sort) => Some(
            SortKey { column: logical(order, sort.column), direction: sort.direction },
        ),
        None => None,
    }
}

/// A value of a record as text.
pub open spec fn field(record: Record, logical: usize) -> Seq<char> {
    match logical {
        0 => digits(record.id as nat),
        1 => record.first@,
        2 => record.last@,
        3 => digits(record.q3_revenue as nat),
        4 => digits(record.q3_cost as nat),
        5 => digits(record.q4_revenue as nat),
        6 => digits(record.q4_cost as nat),
        _ => seq![],
    }
}

impl Scene {
    /// The value of a cell as text; nothing for a cell that is not there.
    pub open spec fn value(self, row: usize, column: usize) -> Seq<char> {
        if row < self.records.len() {
            field(self.records[row as int], logical(self.order, column))
        } else {
            seq![]
        }
    }

    /// One line of the rectangle around the selected cells, with nothing where
    /// a cell is not selected.
    pub open spec fn cell_line(self, row: usize, bounds: Bounds) -> Seq<Seq<char>> {
        Seq::new(
            (bounds.right - bounds.left + 1) as nat,
            |i: int|
                if self.selected_cells.contains((row, (bounds.left + i) as usize)) {
                    self.value(row, (bounds.left + i) as usize)
                } else {
                    seq![]
                },
        )
    }

    /// The rectangle around the selected cells.
    pub open spec fn cell_lines(self, bounds: Bounds) -> Seq<Seq<Seq<char>>> {
        Seq::new(
            (bounds.bottom - bounds.top + 1) as nat,
            |i: int| self.cell_line((bounds.top + i) as usize, bounds),
        )
    }

    /// A whole row means every column of it.
    pub open spec fn row_line(self, row: usize) -> Seq<Seq<char>> {
        Seq::new(DATA_COLUMNS as nat, |c: int| self.value(row, c as usize))
    }

    /// The selected columns of one row.
    pub open spec fn column_line(self, row: usize) -> Seq<Seq<char>> {
        listing(self.selected_columns).map_values(|column: usize| self.value(row, column))
    }
}

/// Lines of values as the text a spreadsheet pastes: tabs between columns, line
/// ends between rows.
pub open spec fn pasted(lines: Seq<Seq<Seq<char>>>) -> Seq<char> {
    joined(lines.map_values(|line: Seq<Seq<char>>| joined(line, "\t"@)), "\n"@)
}

/// Is this whatever is selected, as the text a spreadsheet pastes?
pub open spec fn is_clipping(scene: Scene, text: Seq<char>) -> bool {
    if !scene.selected_cells.is_empty() {
        exists|bounds: Bounds| #[trigger]
            encloses(scene.selected_cells, bounds) && text == pasted(scene.cell_lines(bounds))
    } else if !scene.selected.is_empty() {
        text == pasted(listing(scene.selected).map_values(|row: usize| scene.row_line(row)))
    } else if !scene.selected_columns.is_empty() {
        text == pasted(
            Seq::new(scene.records.len(), |row: int| scene.column_line(row as usize)),
        )
    } else {
        text == Seq::<char>::empty()
    }
}

/// What the status line says of selected rows.
pub open spec fn rows_status(rows: Set<usize>) -> Seq<char> {
    let all = listing(rows);

    if all.len() == 0 {
        "nothing selected"@
    } else if all.len() == 1 {
        "selected row "@ + digits(all[0] as nat)
    } else {
        "selected "@ + digits(all.len()) + " rows ("@ + digits(all[0] as nat) + "..="@ + digits(
            all.last() as nat,
        ) + ")"@
    }
}

/// What the status line says of selected cells.
pub open spec fn cells_status(cells: Set<(usize, usize)>) -> Seq<char> {
    if cells.len() == 0 {
        "no cells selected"@
    } else if cells.len() == 1 {
        "selected cell ("@ + digits(cells.choose().0 as nat) + ", "@ + digits(
            cells.choose().1 as nat,
        ) + ")"@
    } else {
        "selected "@ + digits(cells.len()) + " cells"@
    }
}

/// What the status line says of a sort.
pub open spec fn sort_status(sort: Option<Sort>) -> Seq<char> {
    match sort {
        Some(sort) => "sorted by column "@ + digits(sort.column as nat) + (match sort.direction {
            Direction::Ascending => " (Ascending)"@,
            Direction::Descending => " (Descending)"@,
        }),
        None => "unsorted"@,
    }
}

/// What the status line says of a right-click.
pub open spec fn click_status(click: Click) -> Seq<char> {
    match (click.row, click.column) {
        (Some(row), Some(column)) => "right-click on cell ("@ + digits(row as nat) + ", "@ + digits(
            column as nat,
        ) + ")"@,
        (Some(row), None) => "right-click on row "@ + digits(row as nat) + "'s gutter"@,
        (None, Some(column)) => "right-click on column "@ + digits(column as nat) + "'s header"@,
        (None, None) => "right-click outside every cell"@,
    }
}

/// The sort once the column at `from` has been moved to `to`: it follows its
/// column.
pub open spec fn followed(sort: Option<Sort>, from: usize, to: usize, columns: nat) -> Option<Sort> {
    match sort {
        Some(sort) if sort.column < columns && from < columns && to < columns => Some(
            Sort {
                column: moved(from as int, to as int, sort.column as int) as usize,
                direction: sort.direction,
            },
        ),
        _ => sort,
    }
}

/// How many rows there are to be, as text.
pub fn rows_label(rows: RowCount) -> (label: String)
    ensures
        label@ == digits(rows_of(rows)) + " rows"@,
{
    let mut label = decimal(rows.value() as u64);

    label.append(" rows");
    label
}

/// What is done about columns that are too wide, as text.
pub fn overflow_label(overflow: Overflow) -> (label: &'static str)
    ensures
        label == (match overflow {
            Overflow::Scroll => "Overflow: Scroll",
            Overflow::Shrink => "Overflow: Shrink",
        }),
{
    match overflow {
        Overflow::Scroll => "Overflow: Scroll",
        Overflow::Shrink => "Overflow: Shrink",
    }
}

/// What is seen of a text, if there is one.
pub open spec fn seen(text: Option<String>) -> Option<Seq<char>> {
    match text {
        Some(text) => Some(text@),
        None => None,
    }
}

/// What a message makes of the demonstration, and of the clipboard if anything.
pub open spec fn steps_to(
    before: Scene,
    message: Message,
    after: Scene,
    copied: Option<Seq<char>>,
) -> bool {
    &&& !(message is Copy) ==> copied is None
    &&& match message {
        Message::Open(id) => after == Scene {
            status: "clicked row id "@ + digits(id as nat),
            ..before
        },
        Message::SelectionChanged(rows) => after == Scene {
            status: rows_status(rows@),
            selected: rows@,
            ..before
        },
        Message::ColumnsChanged(columns) => after == Scene {
            status: digits(columns@.len()) + " column(s) selected"@,
            selected_columns: columns@,
            ..before
        },
        Message::RowsChanged(rows) => {
            &&& is_sorted(
                after.records,
                Seq::new(rows_of(rows), |i: int| record_of(i)),
                key_of(before.order, before.sort),
            )
            &&& after == Scene { rows, selected: Set::empty(), records: after.records, ..before }
        },
        Message::OverflowChanged(overflow) => after == Scene { overflow, ..before },
        Message::ToggleGroups(groups) => after == Scene { groups, ..before },
        Message::ToggleStripes(stripes) => after == Scene { stripes, ..before },
        Message::ToggleConditional(conditional) => after == Scene { conditional, ..before },
        Message::SortChanged(sort) => {
            &&& is_sorted(after.records, before.records, key_of(before.order, sort))
            &&& after == Scene {
                sort,
                status: sort_status(sort),
                selected: Set::empty(),
                records: after.records,
                ..before
            }
        },
        Message::RightClicked(click) => after == Scene { status: click_status(click), ..before },
        Message::ToggleCells(cells) => after == Scene {
            cells,
            selected_cells: Set::empty(),
            ..before
        },
        Message::ToggleSticky(sticky) => after == Scene { sticky, ..before },
        Message::CellsChanged(cells) => after == Scene {
            status: cells_status(cells@),
            selected_cells: cells@,
            ..before
        },
        Message::Copy => exists|text: Seq<char>| #[trigger]
            is_clipping(before, text) && (if text.len() == 0 {
                after == before && copied is None
            } else {
                &&& copied == Some(text)
                &&& after == Scene {
                    status: "copied "@ + digits(line_count(text)) + " lines"@,
                    ..before
                }
            }),
        Message::Reordered(from, to) => after == Scene {
            order: reordered(before.order, from as int, to as int),
            selected_columns: Set::empty(),
            selected_cells: Set::empty(),
            sort: followed(before.sort, from, to, before.order.len()),
            status: "moved column "@ + digits(from as nat) + " to "@ + digits(to as nat),
            ..before
        },
    }
}

/// A line of text made of pieces.
fn line2(a: &str, b: String) -> (text: String)
    ensures
        text@ == a@ + b@,
{
    let mut text = a.to_owned();

    text.append(b.as_str());
    text
}

fn line3(a: &str, b: String, c: &str) -> (text: String)
    ensures
        text@ == a@ + b@ + c@,
{
    let mut text = line2(a, b);

    text.append(c);
    text
}

fn line5(a: &str, b: String, c: &str, d: String, e: &str) -> (text: String)
    ensures
        text@ == a@ + b@ + c@ + d@ + e@,
{
    let mut text = line3(a, b, c);

    text.append(d.as_str());
    text.append(e);
    text
}

fn status_of_rows(rows: &BTreeSet<usize>) -> (status: String)
    ensures
        status@ == rows_status(rows@),
{
    let all = in_order(rows);

    if all.len() == 0 {
        "nothing selected".to_owned()
    } else if all.len() == 1 {
        line2("selected row ", decimal(all[0] as u64))
    } else {
        let mut text = line5(
            "selected ",
            decimal(all.len() as u64),
            " rows (",
            decimal(all[0] as u64),
            "..=",
        );

        text.append(decimal(all[all.len() - 1] as u64).as_str());
        text.append(")");
        text
    }
}

fn status_of_cells(cells: &BTreeSet<(usize, usize)>) -> (status: String)
    ensures
        status@ == cells_status(cells@),
{
    let count: usize = cells.len();

    if count == 0 {
        "no cells selected".to_owned()
    } else if count == 1 {
        let all = members(cells);

        proof {
            vstd::seq_lib::seq_to_set_is_finite(all@);
            assert(all@.to_set() == cells@);
            if all@.len() == 0 {
                assert(cells@ =~= Set::empty());
            }
            assert(all@.to_set().contains(all@[0]));
            Set::lemma_is_singleton(cells@);
        }
        line5(
            "selected cell (",
            decimal(all[0].0 as u64),
            ", ",
            decimal(all[0].1 as u64),
            ")",
        )
    } else {
        line3("selected ", decimal(count as u64), " cells")
    }
}

fn status_of_sort(sort: Option<Sort>) -> (status: String)
    ensures
        status@ == sort_status(sort),
{
    match sort {
        Some(sort) => line3(
            "sorted by column ",
            decimal(sort.column as u64),
            match sort.direction {
                Direction::Ascending => " (Ascending)",
                Direction::Descending => " (Descending)",
            },
        ),
        None => "unsorted".to_owned(),
    }
}

fn status_of_click(click: Click) -> (status: String)
    ensures
        status@ == click_status(click),
{
    match (click.row, click.column) {
        (Some(row), Some(column)) => line5(
            "right-click on cell (",
            decimal(row as u64),
            ", ",
            decimal(column as u64),
            ")",
        ),
        (Some(row), None) => line3("right-click on row ", decimal(row as u64), "'s gutter"),
        (None, Some(column)) => line3(
            "right-click on column ",
            decimal(column as u64),
            "'s header",
        ),
        (None, None) => "right-click outside every cell".to_owned(),
    }
}

/// Where a column is once the one at `from` has been moved to `to`.
fn follow(sort: Option<Sort>, from: usize, to: usize, columns: usize) -> (result: Option<Sort>)
    ensures
        result == followed(sort, from, to, columns as nat),
{
    match sort {
        Some(sort) => {
            if sort.column >= columns || from >= columns || to >= columns {
                return Some(sort);
            }
            let column: usize = if sort.column == from {
                to
            } else if from < sort.column && sort.column <= to {
                sort.column - 1
            } else if to <= sort.column && sort.column < from {
                sort.column + 1
            } else {
                sort.column
            };

            Some(Sort { column, direction: sort.direction })
        },
        None => None,
    }
}

/// What a cell of the table shows.
#[derive(Debug)]
pub enum Shown {
    Text(String),
    /// A button that opens the record with this id.
    Open(u32),
}

/// What a record shows in a column. Amounts of money say so.
pub open spec fn is_shown(shown: Shown, record: Record, logical: usize) -> bool {
    match shown {
        Shown::Text(text) => logical <= 6 && text@ == (if logical <= 2 {
            field(record, logical)
        } else {
            "$"@ + field(record, logical)
        }),
        Shown::Open(id) => logical > 6 && id == record.id,
    }
}

fn text_of(record: &Record, logical: usize) -> (text: String)
    ensures
        text@ == field(*record, logical),
{
    match logical {
        0 => decimal(record.id as u64),
        1 => record.first.to_owned(),
        2 => record.last.to_owned(),
        3 => decimal(record.q3_revenue as u64),
        4 => decimal(record.q3_cost as u64),
        5 => decimal(record.q4_revenue as u64),
        6 => decimal(record.q4_cost as u64),
        _ => String::new(),
    }
}

/// What a record shows in a column.
pub fn shown(record: &Record, logical: usize) -> (shown: Shown)
    ensures
        is_shown(shown, *record, logical),
{
    if logical > 6 {
        Shown::Open(record.id)
    } else if logical <= 2 {
        Shown::Text(text_of(record, logical))
    } else {
        Shown::Text(line2("$", text_of(record, logical)))
    }
}

/// How a cell stands out.
#[derive(Debug, Clone, Copy, PartialEq, Eq, Structural)]
pub enum Tone {
    Plain,
    /// Revenue of a quarter that made money.
    Good,
    /// Cost of a quarter that lost money.
    Bad,
}

/// How a value stands out: a quarter made money if it took in more than twice
/// its cost.
pub open spec fn tone_of(record: Record, logical: usize) -> Tone {
    let q3 = record.q3_revenue > 2 * record.q3_cost;
    let q4 = record.q4_revenue > 2 * record.q4_cost;

    if (logical == 3 && q3) || (logical == 5 && q4) {
        Tone::Good
    } else if (logical == 4 && !q3) || (logical == 6 && !q4) {
        Tone::Bad
    } else {
        Tone::Plain
    }
}

impl Scene {
    /// How a cell stands out, if cells do at all.
    pub open spec fn tone_at(self, cell: Cell) -> Tone {
        if self.conditional && cell.row < self.records.len() {
            tone_of(self.records[cell.row as int], logical(self.order, cell.column))
        } else {
            Tone::Plain
        }
    }
}

impl Default for Demo {
    fn default() -> (demo: Self)
        ensures
            is_sorted(demo@.records, Seq::new(rows_of(RowCount::Many), |i: int| record_of(i)), None),
            demo@ == (Scene {
                records: demo@.records,
                rows: RowCount::Many,
                overflow: Overflow::Scroll,
                groups: true,
                stripes: true,
                conditional: true,
                cells: false,
                sticky: true,
                order: Seq::new(ALL_COLUMNS as nat, |i: int| i as usize),
                sort: None,
                selected_cells: Set::empty(),
                selected: Set::empty(),
                selected_columns: Set::empty(),
                status: "no row clicked yet"@,
            }),
    {
        let mut order: Vec<usize> = Vec::new();

        for i in 0..ALL_COLUMNS
            invariant
                order@ == Seq::new(i as nat, |k: int| k as usize),
        {
            order.push(i);
        }
        Demo {
            records: sorted(&generate(RowCount::Many), None),
            rows: RowCount::Many,
            overflow: Overflow::Scroll,
            groups: true,
            stripes: true,
            conditional: true,
            cells: false,
            sticky: true,
            order,
            sort: None,
            selected_cells: BTreeSet::new(),
            selected: BTreeSet::new(),
            selected_columns: BTreeSet::new(),
            status: "no row clicked yet".to_owned(),
        }
    }
}

impl Demo {
    fn logical(&self, column: usize) -> (result: usize)
        ensures
            result == logical(self.order@, column),
    {
        if column < self.order.len() {
            self.order[column]
        } else {
            column
        }
    }

    fn key(&self, sort: Option<Sort>) -> (key: Option<SortKey>)
        ensures
            key == key_of(self.order@, sort),
    {
        match sort {
            Some(sort) => Some(
                SortKey { column: self.logical(sort.column), direction: sort.direction },
            ),
            None => None,
        }
    }

    /// Make the records anew, sorted as they are to be.
    fn regenerate(&mut self)
        ensures
            is_sorted(
                final(self)@.records,
                Seq::new(rows_of(old(self).rows), |i: int| record_of(i)),
                key_of(old(self)@.order, old(self)@.sort),
            ),
            final(self)@ == (Scene { records: final(self)@.records, ..old(self)@ }),
    {
        let key = self.key(self.sort);

        self.records = sorted(&generate(self.rows), key);
    }

    /// Put the records in the order that the sort asks for. The table only
    /// reports what the sort should become.
    fn resort(&mut self)
        ensures
            is_sorted(
                final(self)@.records,
                old(self)@.records,
                key_of(old(self)@.order, old(self)@.sort),
            ),
            final(self)@ == (Scene { records: final(self)@.records, ..old(self)@ }),
    {
        let key = self.key(self.sort);

        self.records = sorted(&self.records, key);
    }

    /// The header of the table.
    pub fn headers(&self) -> (nodes: Vec<HeaderNode<&'static str>>)
        ensures
            trees_of(nodes@) == header_trees(self.order@, self.groups, self.sticky),
    {
        headers(&self.order, self.groups, self.sticky)
    }

    /// What a record shows at a display position.
    pub fn shown(&self, record: &Record, column: usize) -> (result: Shown)
        ensures
            is_shown(result, *record, logical(self.order@, column)),
    {
        shown(record, self.logical(column))
    }

    /// How a cell stands out.
    pub fn tone(&self, cell: Cell) -> (tone: Tone)
        ensures
            tone == self@.tone_at(cell),
    {
        if !self.conditional || cell.row >= self.records.len() {
            return Tone::Plain;
        }
        let record = &self.records[cell.row];
        let column: usize = self.logical(cell.column);
        let q3 = record.q3_revenue as u64 > 2 * record.q3_cost as u64;
        let q4 = record.q4_revenue as u64 > 2 * record.q4_cost as u64;

        if (column == 3 && q3) || (column == 5 && q4) {
            Tone::Good
        } else if (column == 4 && !q3) || (column == 6 && !q4) {
            Tone::Bad
        } else {
            Tone::Plain
        }
    }

    /// One cell's value as text. The table never sees these, so producing them
    /// for the clipboard is the application's job.
    pub fn value(&self, row: usize, column: usize) -> (text: String)
        ensures
            text@ == self@.value(row, column),
    {
        if row >= self.records.len() {
            return String::new();
        }
        text_of(&self.records[row], self.logical(column))
    }

    fn cell_row(&self, line: &Vec<Option<CellPosition>>) -> (texts: Vec<String>)
        ensures
            views(texts@) == Seq::new(
                line@.len(),
                |i: int|
                    match line@[i] {
                        Some(cell) => self@.value(cell.row, cell.column),
                        None => seq![],
                    },
            ),
    {
        let mut texts: Vec<String> = Vec::new();

        for i in 0..line.len()
            invariant
                views(texts@) =~= Seq::new(
                    i as nat,
                    |k: int|
                        match line@[k] {
                            Some(cell) => self@.value(cell.row, cell.column),
                            None => seq![],
                        },
                ),
        {
            let text = match line[i] {
                Some(cell) => self.value(cell.row, cell.column),
                None => String::new(),
            };

            assert(text@ =~= match line@[i as int] {
                Some(cell) => self@.value(cell.row, cell.column),
                None => seq![],
            });
            assert(views(texts@.push(text)) =~= views(texts@).push(text@));
            texts.push(text);
        }
        texts
    }

    fn row_of(&self, row: usize) -> (texts: Vec<String>)
        ensures
            views(texts@) == self@.row_line(row),
    {
        let mut texts: Vec<String> = Vec::new();

        for c in 0..DATA_COLUMNS
            invariant
                views(texts@) =~= Seq::new(c as nat, |k: int| self@.value(row, k as usize)),
        {
            let text = self.value(row, c);

            assert(views(texts@.push(text)) =~= views(texts@).push(text@));
            texts.push(text);
        }
        texts
    }

    fn columns_of(&self, row: usize, columns: &Vec<usize>) -> (texts: Vec<String>)
        ensures
            views(texts@) == columns@.map_values(|column: usize| self@.value(row, column)),
    {
        let mut texts: Vec<String> = Vec::new();

        for i in 0..columns.len()
            invariant
                views(texts@) =~= columns@.take(i as int).map_values(
                    |column: usize| self@.value(row, column),
                ),
        {
            let text = self.value(row, columns[i]);

            assert(views(texts@.push(text)) =~= views(texts@).push(text@));
            texts.push(text);
        }
        assert(columns@.take(columns@.len() as int) =~= columns@);
        texts
    }

    /// Whatever is selected, as the tab/newline text a spreadsheet pastes.
    pub fn clipboard_text(&self) -> (text: String)
        ensures
            is_clipping(self@, text@),
    {
        let mut lines: Vec<String> = Vec::new();
        let ghost tab = "\t"@;

        if !self.selected_cells.is_empty() {
            let cells = grid(&self.selected_cells);
            let ghost bounds = choose|bounds: Bounds| #[trigger]
                encloses(self.selected_cells@, bounds) && is_grid(
                    cells@,
                    self.selected_cells@,
                    bounds,
                );
            let ghost all = self@.cell_lines(bounds);

            assert(encloses(self.selected_cells@, bounds));
            for i in 0..cells.len()
                invariant
                    tab == "\t"@,
                    is_grid(cells@, self.selected_cells@, bounds),
                    bounds.left <= bounds.right,
                    all == self@.cell_lines(bounds),
                    views(lines@) =~= all.take(i as int).map_values(
                        |line: Seq<Seq<char>>| joined(line, tab),
                    ),
            {
                let row = self.cell_row(&cells[i]);

                assert(cells@[i as int]@ == crate::selection::grid_line(
                    self.selected_cells@,
                    (bounds.top + i) as usize,
                    bounds,
                ));
                assert(views(row@) =~= all[i as int]);
                let line = join(&row, "\t");

                assert(views(lines@.push(line)) =~= views(lines@).push(line@));
                lines.push(line);
            }
            assert(all.take(all.len() as int) =~= all);
            assert(views(lines@) =~= all.map_values(
                |line: Seq<Seq<char>>| joined(line, tab),
            ));
            let text = join(&lines, "\n");

            assert(encloses(self.selected_cells@, bounds) && text@ == pasted(
                self@.cell_lines(bounds),
            ));
            text
        } else if !self.selected.is_empty() {
            let rows = in_order(&self.selected);
            let ghost all = rows@.map_values(|row: usize| self@.row_line(row));

            for i in 0..rows.len()
                invariant
                    tab == "\t"@,
                    all == rows@.map_values(|row: usize| self@.row_line(row)),
                    views(lines@) =~= all.take(i as int).map_values(
                        |line: Seq<Seq<char>>| joined(line, tab),
                    ),
            {
                let row = self.row_of(rows[i]);

                assert(views(row@) =~= all[i as int]);
                let line = join(&row, "\t");

                assert(views(lines@.push(line)) =~= views(lines@).push(line@));
                lines.push(line);
            }
            assert(all.take(all.len() as int) =~= all);
            assert(views(lines@) =~= all.map_values(
                |line: Seq<Seq<char>>| joined(line, tab),
            ));
            join(&lines, "\n")
        } else if !self.selected_columns.is_empty() {
            let columns = in_order(&self.selected_columns);
            let ghost all = Seq::new(
                self.records@.len(),
                |row: int| self@.column_line(row as usize),
            );

            for i in 0..self.records.len()
                invariant
                    tab == "\t"@,
                    columns@ == listing(self.selected_columns@),
                    all == Seq::new(
                        self.records@.len(),
                        |row: int| self@.column_line(row as usize),
                    ),
                    views(lines@) =~= all.take(i as int).map_values(
                        |line: Seq<Seq<char>>| joined(line, tab),
                    ),
            {
                let row = self.columns_of(i, &columns);

                assert(views(row@) =~= all[i as int]);
                let line = join(&row, "\t");

                assert(views(lines@.push(line)) =~= views(lines@).push(line@));
                lines.push(line);
            }
            assert(all.take(all.len() as int) =~= all);
            assert(views(lines@) =~= all.map_values(
                |line: Seq<Seq<char>>| joined(line, tab),
            ));
            join(&lines, "\n")
        } else {
            String::new()
        }
    }

    /// Act on a message. What comes back is text for the clipboard, if any.
    #[verifier::rlimit(60)]
    #[verifier::spinoff_prover]
    pub fn update(&mut self, message: Message) -> (clipboard: Option<String>)
        ensures
            steps_to(old(self)@, message, final(self)@, seen(clipboard)),
    {
        match message {
            Message::Open(id) => {
                self.status = line2("clicked row id ", decimal(id as u64));
            },
            Message::SelectionChanged(rows) => {
                self.status = status_of_rows(&rows);
                self.selected = rows;
            },
            Message::ColumnsChanged(columns) => {
                self.status = line3("", decimal(columns.len() as u64), " column(s) selected");
                proof {
                    reveal_strlit("");
                    assert(self.status@ =~= digits(columns@.len()) + " column(s) selected"@);
                }
                self.selected_columns = columns;
            },
            Message::RowsChanged(rows) => {
                self.rows = rows;
                self.selected.clear();
                self.regenerate();
            },
            Message::OverflowChanged(overflow) => {
                self.overflow = overflow;
            },
            Message::ToggleGroups(groups) => {
                self.groups = groups;
            },
            Message::ToggleStripes(stripes) => {
                self.stripes = stripes;
            },
            Message::ToggleConditional(conditional) => {
                self.conditional = conditional;
            },
            Message::SortChanged(sort) => {
                self.sort = sort;
                self.status = status_of_sort(sort);
                // Row indices are positional, so reordering the data re-points
                // every selected index at a different record. The selection is
                // dropped instead.
                self.selected.clear();
                self.resort();
            },
            Message::RightClicked(click) => {
                self.status = status_of_click(click);
            },
            Message::ToggleCells(cells) => {
                self.cells = cells;
                self.selected_cells.clear();
            },
            Message::ToggleSticky(sticky) => {
                self.sticky = sticky;
            },
            Message::CellsChanged(cells) => {
                self.status = status_of_cells(&cells);
                self.selected_cells = cells;
            },
            Message::Copy => {
                let text = self.clipboard_text();

                assert(is_clipping(old(self)@, text@));
                if text.as_str().unicode_len() > 0 {
                    self.status = line3(
                        "copied ",
                        decimal(count_lines(text.as_str()) as u64),
                        " lines",
                    );
                    return Some(text);
                }
            },
            Message::Reordered(from, to) => {
                let columns: usize = self.order.len();

                // Column and cell selections are keyed by display position, so
                // after a permutation they would point at other columns than
                // were picked. They are dropped; the sort follows its column.
                reorder(&mut self.order, from, to);
                self.selected_columns.clear();
                self.selected_cells.clear();
                self.sort = follow(self.sort, from, to, columns);
                self.status = line3("moved column ", decimal(from as u64), " to ");
                self.status.append(decimal(to as u64).as_str());
            },
        }
        None
    }
}

/// What is copied is determined by what is selected.
pub proof fn one_text_is_copied(scene: Scene, one: Seq<char>, other: Seq<char>)
    requires
        is_clipping(scene, one),
        is_clipping(scene, other),
    ensures
        one == other,
{
    if !scene.selected_cells.is_empty() {
        let a = choose|bounds: Bounds| #[trigger]
            encloses(scene.selected_cells, bounds) && one == pasted(scene.cell_lines(bounds));
        let b = choose|bounds: Bounds| #[trigger]
            encloses(scene.selected_cells, bounds) && other == pasted(scene.cell_lines(bounds));

        the_enclosing_rectangle_is_unique(scene.selected_cells, a, b);
    }
}

/// A sort stays with its column when a column is moved: the logical column that
/// the records are sorted by is the same before and after.
pub proof fn the_sort_follows_its_column(
    order: Seq<usize>,
    sort: Option<Sort>,
    from: usize,
    to: usize,
)
    requires
        order.len() <= usize::MAX,
    ensures
        key_of(
            reordered(order, from as int, to as int),
            followed(sort, from, to, order.len()),
        ) == key_of(order, sort),
{
    if from < order.len() && to < order.len() {
        crate::selection_laws::a_move_keeps_the_rest_in_order(order, from as int, to as int);
    }
}

} // verus!
