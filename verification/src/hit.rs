//! What lies under a point.
//!
//! Columns are laid out in *content space*; scrolling shifts all of them but
//! the frozen ones. Where an edge ends up is the caller's arithmetic; which
//! column, header cell or edge a point belongs to is decided here.

use vstd::prelude::*;
use crate::header::{leaf_index, HeaderCell};
use crate::px::{at_most, below, total_rank, Px};
use crate::table::{inside, DataTable};

verus! {

/// Screen x for a point in content space.
pub open spec fn on_screen(content: Px, frozen: Px, pinned: Px, shifted: Px) -> Px {
    if at_most(content, frozen) {
        pinned
    } else {
        shifted
    }
}

/// Screen x for a point in content space. The frozen strip does not move, so
/// anything inside it stays where it is `pinned`, while everything else is
/// `shifted` by the scroll offset.
pub fn screen_x(content: Px, frozen: Px, pinned: Px, shifted: Px) -> (x: Px)
    ensures
        x == on_screen(content, frozen, pinned, shifted),
{
    if content.is_at_most(frozen) {
        pinned
    } else {
        shifted
    }
}

/// Content-space x for a point on screen.
pub open spec fn in_content(local: Px, frozen: Px, shifted: Px) -> Px {
    if below(local, frozen) {
        local
    } else {
        shifted
    }
}

/// Content-space x for a point on screen that is `local` from the left edge of
/// the table, and `shifted` once the scroll offset is added.
pub fn content_x(local: Px, frozen: Px, shifted: Px) -> (x: Px)
    ensures
        x == in_content(local, frozen, shifted),
        at_most(local, shifted) ==> (below(x, frozen) <==> below(local, frozen)),
{
    if local.is_below(frozen) {
        local
    } else {
        shifted
    }
}

/// Screen x for an edge of a column.
pub open spec fn edge_at(column: usize, frozen: usize, pinned: Px, shifted: Px) -> Px {
    if column < frozen {
        pinned
    } else {
        shifted
    }
}

/// Screen x for an edge of a column: `pinned` for a column of the frozen strip,
/// `shifted` by the scroll offset for any other. Unlike [`screen_x`] this goes by
/// the column the edge belongs to, so that the right edge of the last frozen
/// column stays put even where spacing carries it past the strip.
pub fn edge_x(column: usize, frozen: usize, pinned: Px, shifted: Px) -> (x: Px)
    ensures
        x == edge_at(column, frozen, pinned, shifted),
{
    if column < frozen {
        pinned
    } else {
        shifted
    }
}

/// The strip of frozen columns, as a point sees it.
#[derive(Debug, Clone, Copy, PartialEq, Eq, Structural)]
pub struct Strip {
    /// How many columns are frozen.
    pub columns: usize,
    /// Is the point over the strip?
    pub over: bool,
}

impl Strip {
    /// The strip of this many columns and this width, for a point that is `local`
    /// from the left edge of the table.
    pub fn at(columns: usize, local: Px, frozen: Px) -> (strip: Self)
        ensures
            strip == (Strip { columns, over: below(local, frozen) }),
    {
        Strip { columns, over: local.is_below(frozen) }
    }

    /// Does the point see this column? The strip is painted over whatever is
    /// scrolled underneath it, so over the strip only frozen columns are seen.
    pub open spec fn shows(&self, column: usize) -> bool {
        self.over ==> column < self.columns
    }

    fn shown(&self, column: usize) -> (shown: bool)
        ensures
            shown == self.shows(column),
    {
        !self.over || column < self.columns
    }
}

/// Is this the column that contains x, or `None` if none does? `lefts` is where each
/// column starts, and `end` where the last one ends.
pub open spec fn is_column_at(column: Option<usize>, x: Px, lefts: Seq<Px>, end: Px) -> bool {
    match column {
        Some(i) => {
            &&& i < lefts.len()
            &&& !below(x, lefts[0]) && !at_most(end, x)
            &&& at_most(lefts[i as int], x)
            &&& forall|j: int| i < j < lefts.len() ==> !at_most(#[trigger] lefts[j], x)
        },
        None => {
            ||| lefts.len() == 0
            ||| below(x, lefts[0])
            ||| at_most(end, x)
            ||| forall|j: int| 0 <= j < lefts.len() ==> !at_most(#[trigger] lefts[j], x)
        },
    }
}

/// Which leaf column contains this x, given where each column starts and where
/// the last one ends.
///
/// `None` in the gutters: those pixels deliberately belong to no column. The
/// spacing between two columns belongs to the one on its left.
pub fn column_at(x: Px, lefts: &[Px], end: Px) -> (column: Option<usize>)
    ensures
        is_column_at(column, x, lefts@, end),
{
    if lefts.len() == 0 || x.is_below(lefts[0]) || end.is_at_most(x) {
        return None;
    }
    let mut past: usize = lefts.len();

    while past > 0
        invariant
            past <= lefts@.len(),
            lefts@.len() > 0,
            !below(x, lefts@[0]) && !at_most(end, x),
            forall|j: int| past <= j < lefts@.len() ==> !at_most(#[trigger] lefts@[j], x),
        decreases past,
    {
        let i: usize = past - 1;

        if lefts[i].is_at_most(x) {
            return Some(i);
        }
        past = i;
    }
    None
}

/// Does the leaf header over this column show at height `y`? `bands` is where
/// each header row starts, and where the last one ends.
pub open spec fn over_leaf(cells: Seq<HeaderCell>, column: usize, bands: Seq<Px>, y: Px) -> bool {
    let k = leaf_index(cells, column) as int;

    k < cells.len() && at_most(bands[cells[k].row as int], y) && below(
        y,
        bands[cells[k].row + cells[k].row_span],
    )
}

/// Can the right edge of this column be grabbed, at `distance` from the pointer
/// and at height `y`?
pub open spec fn grabs(
    strip: Strip,
    cells: Seq<HeaderCell>,
    distances: Seq<Px>,
    tolerance: Px,
    bands: Seq<Px>,
    y: Px,
    column: int,
) -> bool {
    &&& strip.shows(column as usize)
    &&& at_most(distances[column], tolerance)
    &&& over_leaf(cells, column as usize, bands, y)
    &&& column == distances.len() - 1 || over_leaf(cells, (column + 1) as usize, bands, y)
}

/// Every header row has a place in `bands`.
pub open spec fn banded(cells: Seq<HeaderCell>, bands: Seq<Px>) -> bool {
    forall|k: int|
        0 <= k < cells.len() ==> {
            &&& (#[trigger] cells[k]).top < bands.len()
            &&& cells[k].row + cells[k].row_span < bands.len()
        }
}

fn shows_leaf(cells: &[HeaderCell], column: usize, bands: &[Px], y: Px) -> (shows: bool)
    requires
        banded(cells@, bands@),
    ensures
        shows == over_leaf(cells@, column, bands@, y),
{
    let mut index: usize = 0;
    let count: usize = bands.len();

    while index < cells.len() && !(cells[index].leaf && cells[index].start == column)
        invariant
            index <= cells@.len(),
            forall|i: int|
                0 <= i < index ==> !((#[trigger] cells@[i]).leaf && cells@[i].start == column),
        decreases cells@.len() - index,
    {
        index = index + 1;
    }
    proof {
        crate::header::leaf_index_is(cells@, column, index as int);
    }
    if index == cells.len() {
        return false;
    }
    let cell = cells[index];

    assert(cell.row + cell.row_span < count);
    bands[cell.row].is_at_most(y) && y.is_below(bands[cell.row + cell.row_span])
}

/// Is this the edge that is grabbed, or `None` if none is? It is the rightmost of
/// those that can be.
pub open spec fn is_edge_at(
    edge: Option<usize>,
    in_header: bool,
    strip: Strip,
    y: Px,
    cells: Seq<HeaderCell>,
    bands: Seq<Px>,
    distances: Seq<Px>,
    tolerance: Px,
) -> bool {
    match edge {
        Some(i) => {
            &&& in_header
            &&& i < distances.len()
            &&& grabs(strip, cells, distances, tolerance, bands, y, i as int)
            &&& forall|j: int|
                i < j < distances.len() ==> !#[trigger] grabs(
                    strip,
                    cells,
                    distances,
                    tolerance,
                    bands,
                    y,
                    j,
                )
        },
        None => in_header ==> forall|j: int|
            0 <= j < distances.len() ==> !#[trigger] grabs(
                strip,
                cells,
                distances,
                tolerance,
                bands,
                y,
                j,
            ),
    }
}

/// Which leaf column edge, if any, sits under this point.
///
/// Scanned right to left, so that when two edges overlap (a column dragged to
/// near-zero width) the rightmost one is grabbed. Restricted to where **both**
/// columns the edge separates show their own leaf headers: a group label sits
/// directly above the edges of every column beneath it, and must not turn into
/// a row of invisible drag handles. An edge that is scrolled underneath the frozen
/// strip is not there to be grabbed.
pub fn resize_edge_at(
    in_header: bool,
    strip: Strip,
    y: Px,
    cells: &[HeaderCell],
    bands: &[Px],
    distances: &[Px],
    tolerance: Px,
) -> (edge: Option<usize>)
    requires
        banded(cells@, bands@),
    ensures
        is_edge_at(edge, in_header, strip, y, cells@, bands@, distances@, tolerance),
{
    if !in_header {
        return None;
    }
    let mut past: usize = distances.len();

    while past > 0
        invariant
            past <= distances@.len(),
            banded(cells@, bands@),
            forall|j: int|
                past <= j < distances@.len() ==> !#[trigger] grabs(
                    strip,
                    cells@,
                    distances@,
                    tolerance,
                    bands@,
                    y,
                    j,
                ),
            in_header,
        decreases past,
    {
        let i: usize = past - 1;

        if strip.shown(i) && distances[i].is_at_most(tolerance) && shows_leaf(cells, i, bands, y) && (i
            == distances.len() - 1 || shows_leaf(cells, i + 1, bands, y)) {
            return Some(i);
        }
        past = i;
    }
    None
}

/// Is the point inside the part of the header that this cell owns? Over the
/// frozen strip only a cell that begins there is; one that also ends beyond the
/// strip owns the strip to its end, however far the rest has scrolled.
pub open spec fn under(
    strip: Strip,
    cells: Seq<HeaderCell>,
    lefts: Seq<Px>,
    rights: Seq<Px>,
    bands: Seq<Px>,
    x: Px,
    y: Px,
    k: int,
) -> bool {
    &&& strip.shows(cells[k].start)
    &&& at_most(lefts[k], x)
    &&& below(x, rights[k]) || (strip.over && !strip.shows(cells[k].end))
    &&& at_most(bands[cells[k].top as int], y)
    &&& below(y, bands[cells[k].row + cells[k].row_span])
}

/// Is the first cell the one to find, rather than the second? The one on the
/// deeper row is, and the later of two on one row.
pub open spec fn outranks(cells: Seq<HeaderCell>, i: int, j: int) -> bool {
    cells[i].row > cells[j].row || (cells[i].row == cells[j].row && i >= j)
}

/// Is this the header cell that is found, or `None` if none is? It is the one that
/// outranks all others under the point.
pub open spec fn is_header_cell_at(
    hit: Option<usize>,
    in_header: bool,
    strip: Strip,
    x: Px,
    y: Px,
    cells: Seq<HeaderCell>,
    lefts: Seq<Px>,
    rights: Seq<Px>,
    bands: Seq<Px>,
) -> bool {
    match hit {
        Some(i) => {
            &&& in_header
            &&& i < cells.len()
            &&& under(strip, cells, lefts, rights, bands, x, y, i as int)
            &&& forall|j: int|
                0 <= j < cells.len() && #[trigger] under(
                    strip,
                    cells,
                    lefts,
                    rights,
                    bands,
                    x,
                    y,
                    j,
                ) ==> outranks(cells, i as int, j)
        },
        None => in_header ==> forall|j: int|
            0 <= j < cells.len() ==> !#[trigger] under(
                strip,
                cells,
                lefts,
                rights,
                bands,
                x,
                y,
                j,
            ),
    }
}

/// Which header cell sits under a point.
///
/// The deepest row wins, so that a leaf wins over the group stacked above it.
/// The blank band above a group that was pushed down to meet its children is
/// part of that group. Over the frozen strip only what is frozen is found, not
/// what is scrolled underneath it.
pub fn header_cell_at(
    in_header: bool,
    strip: Strip,
    x: Px,
    y: Px,
    cells: &[HeaderCell],
    lefts: &[Px],
    rights: &[Px],
    bands: &[Px],
) -> (hit: Option<usize>)
    requires
        banded(cells@, bands@),
        lefts@.len() == cells@.len(),
        rights@.len() == cells@.len(),
    ensures
        is_header_cell_at(hit, in_header, strip, x, y, cells@, lefts@, rights@, bands@),
{
    if !in_header {
        return None;
    }
    let mut best: Option<usize> = None;
    let count: usize = bands.len();

    for k in 0..cells.len()
        invariant
            in_header,
            count == bands@.len(),
            banded(cells@, bands@),
            lefts@.len() == cells@.len(),
            rights@.len() == cells@.len(),
            match best {
                Some(i) => {
                    &&& i < k
                    &&& under(strip, cells@, lefts@, rights@, bands@, x, y, i as int)
                    &&& forall|j: int|
                        0 <= j < k && #[trigger] under(
                            strip,
                            cells@,
                            lefts@,
                            rights@,
                            bands@,
                            x,
                            y,
                            j,
                        ) ==> outranks(cells@, i as int, j)
                },
                None => forall|j: int|
                    0 <= j < k ==> !#[trigger] under(
                        strip,
                        cells@,
                        lefts@,
                        rights@,
                        bands@,
                        x,
                        y,
                        j,
                    ),
            },
    {
        let cell = cells[k];

        assert(cell.row + cell.row_span < count);
        if strip.shown(cell.start) && lefts[k].is_at_most(x) && (x.is_below(rights[k]) || (strip.over
            && !strip.shown(cell.end))) && bands[cell.top].is_at_most(y) && y.is_below(
            bands[cell.row + cell.row_span],
        ) {
            let deeper = match best {
                Some(i) => cell.row >= cells[i].row,
                None => true,
            };

            if deeper {
                best = Some(k);
            }
        }
    }
    best
}

/// Where a drop boundary lies.
#[derive(Debug, Clone, Copy, PartialEq, Eq, Structural)]
pub enum Boundary {
    /// Left of this column.
    Before(usize),
    /// Right of this column, which is the last.
    After(usize),
}

/// Where the gap is that a column dropped at `slot` would be inserted into.
pub open spec fn boundary_of(slot: usize, columns: usize) -> Option<Boundary> {
    if columns == 0 {
        None
    } else if slot < columns {
        Some(Boundary::Before(slot))
    } else {
        Some(Boundary::After((columns - 1) as usize))
    }
}

/// Where the gap is that a column dropped at `slot` would be inserted into.
pub fn boundary(slot: usize, columns: usize) -> (boundary: Option<Boundary>)
    ensures
        boundary == boundary_of(slot, columns),
{
    if columns == 0 {
        None
    } else if slot < columns {
        Some(Boundary::Before(slot))
    } else {
        Some(Boundary::After(columns - 1))
    }
}

/// Is this the nearest slot, and the first of those that are as near? Distances are
/// held against each other in the total order of bit patterns, in which one that is
/// NaN, and has no sign, comes last.
pub open spec fn is_nearest(distances: Seq<Px>, at: int) -> bool {
    &&& 0 <= at < distances.len()
    &&& forall|j: int|
        0 <= j < distances.len() ==> total_rank(distances[at]) <= total_rank(#[trigger] distances[j])
    &&& forall|j: int| 0 <= j < at ==> total_rank(distances[at]) < total_rank(#[trigger] distances[j])
}

/// The nearest of the slots, the first of those that are as near. None without
/// slots, or without a distance for each.
pub open spec fn nearest_of(slots: Seq<usize>, distances: Seq<Px>) -> Option<usize> {
    if slots.len() == 0 || slots.len() != distances.len() {
        None
    } else {
        Some(slots[choose|at: int| is_nearest(distances, at)])
    }
}

/// The slot nearest to the pointer, given how far each one is away.
pub fn nearest(slots: &[usize], distances: &[Px]) -> (slot: Option<usize>)
    ensures
        slot == nearest_of(slots@, distances@),
        slot is Some ==> exists|at: int| #[trigger]
            is_nearest(distances@, at) && slot == Some(slots@[at]),
{
    if slots.len() == 0 || slots.len() != distances.len() {
        return None;
    }
    let mut at: usize = 0;

    for i in 1..slots.len()
        invariant
            slots@.len() == distances@.len(),
            at < i <= distances@.len(),
            forall|j: int|
                0 <= j < i ==> total_rank(distances@[at as int]) <= total_rank(#[trigger] distances@[j]),
            forall|j: int|
                0 <= j < at ==> total_rank(distances@[at as int]) < total_rank(#[trigger] distances@[j]),
    {
        if distances[i].precedes(distances[at]) {
            at = i;
        }
    }
    proof {
        let found = choose|at: int| is_nearest(distances@, at);

        assert(is_nearest(distances@, at as int));
        assert(is_nearest(distances@, found));
        assert(total_rank(distances@[found]) == total_rank(distances@[at as int]));
        assert(found == at);
    }
    Some(slots[at])
}

impl<E> DataTable<E> {
    /// Which sortable column's control is under the pointer. `zones` says of
    /// each header cell whether the pointer is where its control would be. A
    /// control that is scrolled underneath the frozen strip is not found.
    pub fn sort_zone_at(&self, strip: Strip, zones: &[bool]) -> (column: Option<usize>)
        requires
            self.fits(),
            zones@.len() == self.header_cells@.len(),
        ensures
            self.is_sort_zone_at(column, strip, zones@),
    {
        for k in 0..self.header_cells.len()
            invariant
                self.fits(),
                zones@.len() == self.header_cells@.len(),
                forall|j: int| 0 <= j < k ==> !#[trigger] self.has_control(strip, zones@, j),
        {
            let cell = self.header_cells[k];

            assert(inside(cell, self.columns@.len(), self.header_rows));
            if self.is_sortable(cell) && strip.shown(cell.start) && zones[k] {
                assert(self.has_control(strip, zones@, k as int));
                return Some(cell.start);
            }
        }
        None
    }

    /// Is this the column whose control is found, or `None` if none is? It is the
    /// first of those under the pointer.
    pub open spec fn is_sort_zone_at(
        &self,
        column: Option<usize>,
        strip: Strip,
        zones: Seq<bool>,
    ) -> bool {
        match column {
            Some(column) => exists|k: int|
                {
                    &&& 0 <= k < zones.len()
                    &&& #[trigger] self.has_control(strip, zones, k)
                    &&& self.header_cells@[k].start == column
                    &&& forall|j: int| 0 <= j < k ==> !#[trigger] self.has_control(strip, zones, j)
                },
            None => forall|j: int|
                0 <= j < zones.len() ==> !#[trigger] self.has_control(strip, zones, j),
        }
    }

    /// Does the header cell have a sort control, and is the pointer on it?
    pub open spec fn has_control(&self, strip: Strip, zones: Seq<bool>, k: int) -> bool {
        self.sorts(self.header_cells@[k]) && strip.shows(self.header_cells@[k].start) && zones[k]
    }
}

/// A point over the label of a group grabs no column edge: the columns beneath
/// the group do not show their own headers at that height.
pub proof fn a_group_label_is_no_drag_handle(
    strip: Strip,
    cells: Seq<HeaderCell>,
    distances: Seq<Px>,
    tolerance: Px,
    bands: Seq<Px>,
    y: Px,
    column: usize,
)
    requires
        leaf_index(cells, column) < cells.len(),
        !at_most(bands[cells[leaf_index(cells, column) as int].row as int], y),
    ensures
        !grabs(strip, cells, distances, tolerance, bands, y, column as int),
        column > 0 && column < distances.len() ==> !grabs(
            strip,
            cells,
            distances,
            tolerance,
            bands,
            y,
            column - 1,
        ),
{
}

/// Over the frozen strip, whatever the scroll offset has moved underneath it, only
/// a frozen column's edge is grabbed, only a header cell that begins in a frozen
/// column is found, and only a frozen column's sort control.
pub proof fn the_frozen_strip_hides_what_scrolls_under_it<E>(
    table: DataTable<E>,
    strip: Strip,
    distances: Seq<Px>,
    tolerance: Px,
    lefts: Seq<Px>,
    rights: Seq<Px>,
    bands: Seq<Px>,
    zones: Seq<bool>,
    x: Px,
    y: Px,
    k: int,
)
    requires
        strip.over,
        0 <= k <= usize::MAX,
    ensures
        grabs(strip, table.header_cells@, distances, tolerance, bands, y, k) ==> k < strip.columns,
        under(strip, table.header_cells@, lefts, rights, bands, x, y, k)
            ==> table.header_cells@[k].start < strip.columns,
        table.has_control(strip, zones, k) ==> table.header_cells@[k].start < strip.columns,
{
}

} // verus!
