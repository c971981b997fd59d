//! What a point finds, and what it does not.

use vstd::prelude::*;
use crate::header::{leaf_index, HeaderCell};
use crate::header_shape_laws::the_leaf_found_is_the_first;
use crate::hit::{
    boundary_of, edge_at, grabs, in_content, is_column_at, is_edge_at, is_header_cell_at,
    is_nearest, nearest_of, on_screen, outranks, over_leaf, under, Boundary, Strip,
};
use crate::interaction_laws::nearest_exists;
use crate::px::{at_most, below, total_rank, Px};
use crate::table::DataTable;

verus! {

/// What is inside the frozen strip shows where it is pinned and is found where it
/// shows; what is beyond it shows and is found with the scroll offset.
pub proof fn only_the_frozen_strip_stays_put(place: Px, frozen: Px, pinned: Px, shifted: Px)
    ensures
        at_most(place, frozen) ==> on_screen(place, frozen, pinned, shifted) == pinned,
        below(frozen, place) ==> on_screen(place, frozen, pinned, shifted) == shifted,
        below(place, frozen) ==> in_content(place, frozen, shifted) == place,
        at_most(frozen, place) ==> in_content(place, frozen, shifted) == shifted,
{
}

/// Off the strip every column is seen; over it, the frozen ones.
pub proof fn the_strip_shows_frozen_columns(columns: usize, column: usize)
    ensures
        (Strip { columns, over: false }).shows(column),
        (Strip { columns, over: true }).shows(column) <==> column < columns,
{
}

/// A leaf header shows at a height exactly if the first leaf over the column has its
/// label there: at or below the top of its first row, and above the end of its last.
pub proof fn a_leaf_shows_in_its_own_band(
    cells: Seq<HeaderCell>,
    column: usize,
    bands: Seq<Px>,
    y: Px,
    k: int,
)
    requires
        0 <= k < cells.len(),
        cells[k].leaf && cells[k].start == column,
        forall|j: int| 0 <= j < k ==> !((#[trigger] cells[j]).leaf && cells[j].start == column),
    ensures
        over_leaf(cells, column, bands, y) <==> at_most(bands[cells[k].row as int], y) && below(
            y,
            bands[cells[k].row + cells[k].row_span],
        ),
{
    the_leaf_found_is_the_first(cells, column);
    let found = leaf_index(cells, column) as int;

    if found < k {
        assert(!(cells[found].leaf && cells[found].start == column));
    }
    if k < found {
        assert(!(cells[k].leaf && cells[k].start == column));
    }
}

/// An edge is grabbed exactly where it is seen, near enough, and the columns on both
/// of its sides show their own headers; of the last column, where it does itself.
pub proof fn an_edge_is_grabbed_between_two_leaf_headers(
    strip: Strip,
    cells: Seq<HeaderCell>,
    distances: Seq<Px>,
    tolerance: Px,
    bands: Seq<Px>,
    y: Px,
    column: usize,
)
    requires
        column < distances.len() <= usize::MAX,
    ensures
        ({
            let last = column == distances.len() - 1;

            grabs(strip, cells, distances, tolerance, bands, y, column as int) <==> {
                &&& strip.over ==> column < strip.columns
                &&& at_most(distances[column as int], tolerance)
                &&& over_leaf(cells, column, bands, y)
                &&& !last ==> over_leaf(cells, (column + 1) as usize, bands, y)
            }
        }),
{
}

/// A header cell is under a point exactly if the point is in its columns and in its
/// rows, those of the blank band above its label included; over the frozen strip
/// only if it begins there, and then as far as the strip goes.
pub proof fn a_header_cell_is_found_in_its_rectangle(
    strip: Strip,
    cells: Seq<HeaderCell>,
    lefts: Seq<Px>,
    rights: Seq<Px>,
    bands: Seq<Px>,
    x: Px,
    y: Px,
    k: int,
)
    ensures
        ({
            let cell = cells[k];
            let straddles = cell.start < strip.columns && cell.end >= strip.columns;
            let in_rows = at_most(bands[cell.top as int], y) && below(
                y,
                bands[cell.row + cell.row_span],
            );
            let found = under(strip, cells, lefts, rights, bands, x, y, k);

            &&& !strip.over ==> (found <==> at_most(lefts[k], x) && below(x, rights[k]) && in_rows)
            &&& strip.over && cell.start >= strip.columns ==> !found
            &&& strip.over && cell.end < strip.columns && cell.start < strip.columns ==> (found
                <==> at_most(lefts[k], x) && below(x, rights[k]) && in_rows)
            &&& strip.over && straddles ==> (found <==> at_most(lefts[k], x) && in_rows)
        }),
{
}

/// Of two header cells under a point the one on the deeper row is found, and on one
/// row the later; so no two cells can both be the one to find.
pub proof fn the_deepest_header_cell_is_found(cells: Seq<HeaderCell>, i: int, j: int)
    ensures
        cells[i].row > cells[j].row ==> outranks(cells, i, j) && !outranks(cells, j, i),
        cells[i].row == cells[j].row && i > j ==> outranks(cells, i, j) && !outranks(cells, j, i),
        outranks(cells, i, j) && outranks(cells, j, i) ==> i == j,
{
}

/// A sort control is found where the pointer is on it, on a leaf whose column can be
/// sorted, if that is seen.
pub proof fn a_control_is_found_where_it_is_drawn<E>(
    table: DataTable<E>,
    strip: Strip,
    zones: Seq<bool>,
    k: int,
)
    ensures
        table.has_control(strip, zones, k) <==> {
            &&& zones[k]
            &&& table.sorts(table.header_cells@[k])
            &&& strip.over ==> table.header_cells@[k].start < strip.columns
        },
{
}

/// The slot aimed at is one of those offered, no other is nearer, and of those that
/// are as near it is the first.
pub proof fn the_nearest_slot_is_aimed_at(slots: Seq<usize>, distances: Seq<Px>) -> (at: int)
    requires
        slots.len() == distances.len(),
        slots.len() > 0,
    ensures
        0 <= at < slots.len(),
        nearest_of(slots, distances) == Some(slots[at]),
        forall|j: int|
            0 <= j < slots.len() ==> total_rank(distances[at]) <= total_rank(
                #[trigger] distances[j],
            ),
        forall|j: int|
            0 <= j < at ==> total_rank(distances[at]) < total_rank(#[trigger] distances[j]),
{
    let found = nearest_exists(distances);
    let at = choose|at: int| is_nearest(distances, at);

    assert(is_nearest(distances, found));
    assert(is_nearest(distances, at));
    at
}

/// Without slots, or without a distance for each, nothing is aimed at.
pub proof fn no_slot_is_aimed_at_without_slots(slots: Seq<usize>, distances: Seq<Px>)
    ensures
        slots.len() == 0 || slots.len() != distances.len() ==> nearest_of(slots, distances) is None,
{
}

/// A point finds the column that starts at or before it, if it is before the next one
/// and before the end; and none before the first column or past the end.
pub proof fn a_point_finds_the_column_it_is_in(
    column: Option<usize>,
    x: Px,
    lefts: Seq<Px>,
    end: Px,
    i: int,
)
    requires
        is_column_at(column, x, lefts, end),
        0 <= i < lefts.len() <= usize::MAX,
        forall|a: int, b: int|
            #![trigger lefts[a], lefts[b]]
            0 <= a <= b < lefts.len() ==> at_most(lefts[a], lefts[b]),
    ensures
        at_most(lefts[i], x) && (i + 1 < lefts.len() ==> below(x, lefts[i + 1])) && below(x, end)
            ==> column == Some(i as usize),
        below(x, lefts[0]) ==> column is None,
        at_most(end, x) ==> column is None,
{
    let first = lefts[0];

    if at_most(lefts[i], x) && (i + 1 < lefts.len() ==> below(x, lefts[i + 1])) && below(x, end) {
        assert(at_most(lefts[0], lefts[i]));
        if let Some(found) = column {
            if found < i {
                assert(!at_most(lefts[i], x));
            }
            if found > i {
                assert(at_most(lefts[i + 1], lefts[found as int]));
            }
        }
    }
}

/// Where edges overlap the rightmost is grabbed; without the header none is, nor where
/// none can be.
pub proof fn the_rightmost_edge_is_grabbed(
    edge: Option<usize>,
    in_header: bool,
    strip: Strip,
    y: Px,
    cells: Seq<HeaderCell>,
    bands: Seq<Px>,
    distances: Seq<Px>,
    tolerance: Px,
    i: usize,
)
    requires
        is_edge_at(edge, in_header, strip, y, cells, bands, distances, tolerance),
    ensures
        !in_header ==> edge is None,
        in_header && i < distances.len() && grabs(
            strip,
            cells,
            distances,
            tolerance,
            bands,
            y,
            i as int,
        ) ==> edge is Some && edge->0 >= i,
        edge matches Some(found) ==> found < distances.len() && grabs(
            strip,
            cells,
            distances,
            tolerance,
            bands,
            y,
            found as int,
        ),
{
}

/// A header cell is found wherever there is one under the point, and then none under
/// it is on a deeper row. Outside the header none is.
pub proof fn a_leaf_is_found_before_its_group(
    hit: Option<usize>,
    in_header: bool,
    strip: Strip,
    x: Px,
    y: Px,
    cells: Seq<HeaderCell>,
    lefts: Seq<Px>,
    rights: Seq<Px>,
    bands: Seq<Px>,
    k: int,
)
    requires
        is_header_cell_at(hit, in_header, strip, x, y, cells, lefts, rights, bands),
        0 <= k < cells.len(),
    ensures
        !in_header ==> hit is None,
        hit matches Some(found) ==> found < cells.len() && under(
            strip,
            cells,
            lefts,
            rights,
            bands,
            x,
            y,
            found as int,
        ),
        in_header && under(strip, cells, lefts, rights, bands, x, y, k) ==> hit is Some
            && cells[hit->0 as int].row >= cells[k].row,
        in_header && under(strip, cells, lefts, rights, bands, x, y, k) && cells[hit->0 as int].row
            == cells[k].row ==> hit->0 >= k,
{
}

/// The first control under the pointer is the one that is found.
pub proof fn the_first_control_is_found<E>(
    table: DataTable<E>,
    column: Option<usize>,
    strip: Strip,
    zones: Seq<bool>,
    k: int,
)
    requires
        table.is_sort_zone_at(column, strip, zones),
        0 <= k < zones.len(),
        table.has_control(strip, zones, k),
        forall|j: int| 0 <= j < k ==> !#[trigger] table.has_control(strip, zones, j),
    ensures
        column == Some(table.header_cells@[k].start),
{
    if let Some(found) = column {
        let at = choose|at: int|
            {
                &&& 0 <= at < zones.len()
                &&& #[trigger] table.has_control(strip, zones, at)
                &&& table.header_cells@[at].start == found
                &&& forall|j: int| 0 <= j < at ==> !#[trigger] table.has_control(strip, zones, j)
            };

        assert(at == k);
    }
}

/// Where no control is under the pointer none is found.
pub proof fn no_control_is_made_up<E>(
    table: DataTable<E>,
    column: Option<usize>,
    strip: Strip,
    zones: Seq<bool>,
)
    requires
        table.is_sort_zone_at(column, strip, zones),
        forall|j: int| 0 <= j < zones.len() ==> !#[trigger] table.has_control(strip, zones, j),
    ensures
        column is None,
{
}

/// A gap is left of the column it stands before, and the last one right of the last
/// column.
pub proof fn a_gap_is_beside_a_column(slot: usize, columns: usize)
    ensures
        slot < columns ==> boundary_of(slot, columns) == Some(Boundary::Before(slot)),
        slot >= columns && columns > 0 ==> boundary_of(slot, columns) == Some(
            Boundary::After((columns - 1) as usize),
        ),
        columns == 0 ==> boundary_of(slot, columns) is None,
{
}

/// The edges of frozen columns are pinned, those of all others move.
pub proof fn only_frozen_edges_are_pinned(column: usize, frozen: usize, pinned: Px, shifted: Px)
    ensures
        column < frozen ==> edge_at(column, frozen, pinned, shifted) == pinned,
        column >= frozen ==> edge_at(column, frozen, pinned, shifted) == shifted,
{
}

} // verus!
