//! The table as a value: its rows, its builders and what lies under a point.

use advanced_table::header::{group, leaf, HeaderNode};
use advanced_table::hit::{
    boundary, column_at, content_x, edge_x, header_cell_at, nearest, resize_edge_at, screen_x,
    Boundary, Strip,
};
use advanced_table::layout::{largest_of, place, Place};
use advanced_table::px::Px;
use advanced_table::scroll::Policy;
use advanced_table::selection::Mode;
use advanced_table::sizing::{Overflow, Sizing, SpanRequest};
use advanced_table::sort::Sort;
use advanced_table::table::{DataTable, Padding};
use advanced_table::{data_table, header::Align};
use std::collections::BTreeSet;

const COLUMNS: usize = 8;
const ROWS: usize = 1_000;

fn px(value: f32) -> Px {
    Px::from_bits(value.to_bits())
}

fn all(values: &[f32]) -> Vec<Px> {
    values.iter().map(|&value| px(value)).collect()
}

fn table() -> DataTable<usize> {
    let headers = (0..COLUMNS).map(leaf).collect();
    let mut table = DataTable::new(headers);

    for _ in 0..ROWS {
        table.push((0..COLUMNS).collect(), || 0);
    }
    table
}

fn visible(table: &DataTable<usize>, offset_y: f32, height: f32, row_height: f32) -> (usize, usize) {
    let top = (offset_y / row_height).floor().max(0.0) as usize;
    let bottom = ((offset_y + height) / row_height).floor() as usize;

    table.visible_body_range(row_height <= 0.0, top, bottom)
}

/// One column, then a group of two, under a header of two rows.
fn small() -> DataTable<&'static str> {
    data_table(vec![
        leaf("A").sortable(),
        group("G", vec![leaf("B").sortable(), leaf("C").align(Align::Right)]),
    ])
}

#[test]
fn visible_range_covers_exactly_the_rows_on_screen() {
    let table = table();
    let header_len = table.header_len;
    let cell = |row: usize| header_len + row * COLUMNS;

    assert_eq!(visible(&table, 0.0, 300.0, 30.0), (cell(0), cell(11)));
    assert_eq!(visible(&table, 305.0, 300.0, 30.0), (cell(10), cell(21)));

    let end = visible(&table, 29_999.0, 300.0, 30.0);

    assert_eq!(end, (cell(999), cell(1_000)));
    assert_eq!(end.1, table.elements.len());
}

#[test]
fn a_malformed_row_is_cut_or_padded() {
    let mut table = small();

    table.push(vec!["1"], || "blank");
    table.push(vec!["2", "3", "4", "5"], || "blank");
    assert_eq!(table.row_count, 2);
    assert_eq!(
        table.elements,
        vec!["A", "G", "B", "C", "1", "blank", "blank", "2", "3", "4"],
    );

    let table = table.row(vec!["x", "y", "z"], || "blank");

    assert_eq!(table.elements[table.cell_index(2, 1)], "y");
}

#[test]
fn rows_come_from_data_and_a_view() {
    let table = DataTable::new(vec![leaf(0), leaf(0), leaf(0)])
        .rows(&[10, 20], |item: &usize, column: usize| item + column);

    assert_eq!(table.row_count, 2);
    assert_eq!(table.elements, vec![0, 0, 0, 10, 11, 12, 20, 21, 22]);
}

#[test]
fn a_new_table_has_its_defaults() {
    let table = small();

    assert_eq!(table.header_rows, 2);
    assert_eq!(table.columns.len(), 3);
    assert_eq!(
        table.padding,
        Padding { top: px(6.0), right: px(10.0), bottom: px(6.0), left: px(10.0) },
    );
    assert_eq!(table.scrollbar_width, px(10.0));
    assert_eq!(table.gutter, px(8.0));
    assert_eq!(table.resize_tolerance, px(4.0));
    assert_eq!(table.min_column_width, px(32.0));
    assert_eq!(table.measure_sample, Some(200));
    assert!(table.resizable);
    assert_eq!((table.mode, table.column_mode, table.cell_mode), (Mode::Off, Mode::Off, Mode::Off));
    assert!(table.is_sound());
}

#[test]
fn builders_set_what_they_say() {
    let rows = BTreeSet::from([1, 2]);
    let cells = BTreeSet::from([(3, 4)]);
    let table = small()
        .spacing(px(1.0))
        .overflow(Overflow::Shrink)
        .measure_sample(7)
        .min_row_height(px(2.0))
        .scrollbar_width(px(3.0))
        .vertical_scroll(Policy::Hidden)
        .horizontal_scroll(Policy::Hidden)
        .selection(Mode::Single, &rows)
        .column_selection(Mode::Multiple, &rows)
        .cell_selection(Mode::Multiple, &cells)
        .sorting(Some(Sort::ascending(2)))
        .on_copy()
        .on_right_click()
        .on_reorder()
        .gutter(px(4.0))
        .resizable(false)
        .min_column_width(px(5.0))
        .padding(Padding { top: px(1.0), right: px(2.0), bottom: px(3.0), left: px(4.0) });

    assert_eq!(table.spacing, px(1.0));
    assert_eq!(table.overflow, Overflow::Shrink);
    assert_eq!(table.measure_sample, Some(7));
    assert_eq!(table.min_row_height, px(2.0));
    assert_eq!(table.scrollbar_width, px(3.0));
    assert_eq!((table.vertical, table.horizontal), (Policy::Hidden, Policy::Hidden));
    assert_eq!((table.mode, &table.selected, table.hears_rows), (Mode::Single, &rows, true));
    assert_eq!(table.selected_columns, rows);
    assert_eq!(table.selected_cells, cells);
    assert_eq!(table.sort, Some(Sort::ascending(2)));
    assert!(table.hears_sort && table.hears_copy && table.hears_right_click && table.hears_reorder);
    assert_eq!(table.gutter, px(4.0));
    assert!(!table.resizable);
    assert_eq!(table.min_column_width, px(5.0));
    assert_eq!(table.padding.left, px(4.0));
    assert_eq!(table.measure_all().measure_sample, None);
}

/// No column is frozen.
const LOOSE: Strip = Strip { columns: 0, over: false };

#[test]
fn only_sortable_leaves_have_a_control_and_only_if_somebody_listens() {
    let table = small().sorting(None);
    let sortable: Vec<bool> =
        table.header_cells.iter().map(|cell| table.is_sortable(*cell)).collect();

    assert_eq!(sortable, vec![true, false, true, false]);
    assert!(!small().is_sortable(small().header_cells[0]));
    assert_eq!(table.sort_zone_at(LOOSE, &[false, true, true, true]), Some(1));
    assert_eq!(table.sort_zone_at(LOOSE, &[false, true, false, true]), None);
}

#[test]
fn a_trailing_empty_group_has_no_column_to_stand_over() {
    let table = DataTable::new(vec![leaf("A"), group("Empty", Vec::<HeaderNode<&str>>::new())]);

    assert!(!table.is_sound());
}

#[test]
fn spacing_belongs_to_the_column_on_its_left_and_gutters_to_none() {
    let lefts = all(&[8.0, 50.0, 100.0]);
    let end = px(150.0);

    assert_eq!(column_at(px(7.9), &lefts, end), None);
    assert_eq!(column_at(px(8.0), &lefts, end), Some(0));
    assert_eq!(column_at(px(49.9), &lefts, end), Some(0));
    assert_eq!(column_at(px(50.0), &lefts, end), Some(1));
    assert_eq!(column_at(px(149.9), &lefts, end), Some(2));
    assert_eq!(column_at(px(150.0), &lefts, end), None);
    assert_eq!(column_at(px(9.0), &[], end), None);
}

#[test]
fn frozen_columns_do_not_move() {
    assert_eq!(screen_x(px(30.0), px(40.0), px(130.0), px(110.0)), px(130.0));
    assert_eq!(screen_x(px(50.0), px(40.0), px(150.0), px(130.0)), px(130.0));
    assert_eq!(content_x(px(30.0), px(40.0), px(50.0)), px(30.0));
    assert_eq!(content_x(px(40.0), px(40.0), px(60.0)), px(60.0));
}

#[test]
fn an_edge_is_grabbed_only_where_both_neighbours_show_their_headers() {
    let table = small();
    let bands = all(&[0.0, 20.0, 40.0]);
    let edge = |y: f32, distances: &[f32]| {
        resize_edge_at(true, LOOSE, px(y), &table.header_cells, &bands, &all(distances), px(4.0))
    };

    // Beside the group's label the tall column's edge is no handle.
    assert_eq!(edge(10.0, &[1.0, 99.0, 99.0]), None);
    assert_eq!(edge(30.0, &[1.0, 99.0, 99.0]), Some(0));
    // The trailing edge has no neighbour to agree with.
    assert_eq!(edge(30.0, &[99.0, 99.0, 4.0]), Some(2));
    // Of two edges that overlap the rightmost is grabbed.
    assert_eq!(edge(30.0, &[2.0, 3.0, 99.0]), Some(1));
    assert_eq!(edge(30.0, &[4.5, 99.0, 99.0]), None);
    assert_eq!(
        resize_edge_at(
            false,
            LOOSE,
            px(30.0),
            &table.header_cells,
            &bands,
            &all(&[0.0; 3]),
            px(4.0),
        ),
        None,
    );
}

#[test]
fn the_deepest_header_cell_under_a_point_is_found() {
    let table = small();
    let bands = all(&[0.0, 20.0, 40.0]);
    // A, G, B, C
    let lefts = all(&[0.0, 50.0, 50.0, 100.0]);
    let rights = all(&[50.0, 150.0, 100.0, 150.0]);
    let at = |x: f32, y: f32| {
        header_cell_at(true, LOOSE, px(x), px(y), &table.header_cells, &lefts, &rights, &bands)
    };

    assert_eq!(at(10.0, 5.0), Some(0));
    assert_eq!(at(10.0, 35.0), Some(0));
    assert_eq!(at(60.0, 5.0), Some(1));
    assert_eq!(at(60.0, 25.0), Some(2));
    assert_eq!(at(120.0, 25.0), Some(3));
    assert_eq!(at(200.0, 25.0), None);
    assert_eq!(
        header_cell_at(
            false,
            LOOSE,
            px(10.0),
            px(5.0),
            &table.header_cells,
            &lefts,
            &rights,
            &bands,
        ),
        None,
    );
}

/// Three columns of width 100, the first of them frozen.
fn pinned() -> DataTable<&'static str> {
    DataTable::new(vec![
        leaf("A").sticky().sortable(),
        leaf("B").sortable(),
        leaf("C").sortable(),
    ])
    .sorting(None)
}

/// The header cell, the column edge and the sort control at this x, scrolled by
/// `offset`. A control takes the last 20 of its column.
fn found(x: f32, offset: f32) -> (Option<usize>, Option<usize>, Option<usize>) {
    let table = pinned();
    let strip = Strip::at(table.sticky_columns, px(x), px(100.0));
    let bands = all(&[0.0, 20.0]);
    let on_screen = |column: usize, content: f32| {
        let at = edge_x(column, table.sticky_columns, px(content), px(content - offset));

        f32::from_bits(at.to_bits())
    };
    let lefts: Vec<f32> = (0..3).map(|i| on_screen(i, 100.0 * i as f32)).collect();
    let rights: Vec<f32> = (0..3).map(|i| on_screen(i, 100.0 * (i + 1) as f32)).collect();
    let distances: Vec<f32> = rights.iter().map(|right| (x - right).abs()).collect();
    let zones: Vec<bool> =
        rights.iter().map(|right| (right - 20.0..*right).contains(&x)).collect();

    (
        header_cell_at(
            true,
            strip,
            px(x),
            px(10.0),
            &table.header_cells,
            &all(&lefts),
            &all(&rights),
            &bands,
        ),
        resize_edge_at(
            true,
            strip,
            px(10.0),
            &table.header_cells,
            &bands,
            &all(&distances),
            px(4.0),
        ),
        table.sort_zone_at(strip, &zones),
    )
}

#[test]
fn the_frozen_strip_covers_what_is_scrolled_under_it() {
    // Nothing scrolled: every column is where it was laid out.
    assert_eq!(found(80.0, 0.0), (Some(0), None, Some(0)));
    assert_eq!(found(150.0, 0.0), (Some(1), None, None));
    assert_eq!(found(199.0, 0.0), (Some(1), Some(1), Some(1)));

    // The third column lies under this point, but the first is painted over it.
    assert_eq!(found(80.0, 150.0), (Some(0), None, Some(0)));
    assert_eq!(found(120.0, 150.0), (Some(2), None, None));
    // So do the edge of the second column and its sort control.
    assert_eq!(found(50.0, 150.0), (Some(0), None, None));
    assert_eq!(found(40.0, 150.0), (Some(0), None, None));
    // The frozen column's own edge stays where it is.
    assert_eq!(found(99.0, 150.0), (Some(0), Some(0), Some(0)));
}

#[test]
fn an_edge_moves_with_its_column() {
    // The spacing takes the frozen column's right edge past the strip.
    assert_eq!(edge_x(0, 1, px(101.0), px(51.0)), px(101.0));
    assert_eq!(screen_x(px(101.0), px(100.0), px(101.0), px(51.0)), px(51.0));
    assert_eq!(edge_x(1, 1, px(101.0), px(51.0)), px(51.0));
    assert_eq!(Strip::at(2, px(99.0), px(100.0)), Strip { columns: 2, over: true });
    assert_eq!(Strip::at(2, px(100.0), px(100.0)), Strip { columns: 2, over: false });
}

#[test]
fn a_group_over_the_seam_owns_the_strip_to_its_end() {
    // A group of two columns, one of them frozen by hand; its right edge has
    // scrolled into the strip.
    let table = DataTable::new(vec![group("G", vec![leaf("A"), leaf("B")])]);
    let strip = Strip { columns: 1, over: true };
    let hit = header_cell_at(
        true,
        strip,
        px(80.0),
        px(5.0),
        &table.header_cells,
        &all(&[0.0, 0.0, 60.0]),
        &all(&[70.0, 100.0, 70.0]),
        &all(&[0.0, 20.0, 40.0]),
    );

    assert_eq!(hit, Some(0));
}

#[test]
fn the_elements_of_a_frozen_column_are_frozen() {
    let mut table = pinned();

    table.push(vec!["1", "2", "3"], || "");
    table.push(vec!["4", "5", "6"], || "");

    let frozen: Vec<bool> = (0..9).map(|index| table.is_frozen(index)).collect();

    assert_eq!(
        frozen,
        vec![true, false, false, true, false, false, true, false, false],
    );
    assert!(table.is_frozen(table.cell_index(1, 0)));
    assert!(!table.is_frozen(table.cell_index(1, 2)));
}

#[test]
fn the_nearest_slot_is_the_first_of_those_as_near() {
    assert_eq!(nearest(&[0, 3, 5], &all(&[9.0, 2.0, 2.0])), Some(3));
    assert_eq!(nearest(&[0, 3, 5], &all(&[1.0, 2.0, 2.0])), Some(0));
    assert_eq!(nearest(&[], &[]), None);
    assert_eq!(nearest(&[1, 2], &all(&[1.0])), None);
}

#[test]
fn a_slot_is_left_of_a_column_or_right_of_the_last() {
    assert_eq!(boundary(0, 3), Some(Boundary::Before(0)));
    assert_eq!(boundary(2, 3), Some(Boundary::Before(2)));
    assert_eq!(boundary(3, 3), Some(Boundary::After(2)));
    assert_eq!(boundary(0, 0), None);
}

#[test]
fn columns_are_as_wide_as_the_widest_thing_in_them() {
    let table = small();
    // A, G, B, C and then two sampled rows.
    let labels = all(&[40.0, 300.0, 50.0, 60.0]);
    let body = all(&[10.0, 80.0, 5.0, 45.0, 20.0, 70.0]);

    assert_eq!(table.intrinsic(&labels, &body, 2), all(&[45.0, 80.0, 70.0]));
    assert_eq!(table.intrinsic(&labels, &[], 0), all(&[40.0, 50.0, 60.0]));
    assert_eq!(
        table.spans(&labels),
        vec![SpanRequest { start: 1, end: 2, needed: px(300.0) }],
    );
    assert_eq!(largest_of(&all(&[3.0, 9.0, 4.0]), px(5.0)), px(9.0));
    assert_eq!(largest_of(&[], px(5.0)), px(5.0));
}

#[test]
fn labels_sit_where_their_columns_do() {
    let table = small();
    let placed: Vec<(Place, Place)> =
        table.header_cells.iter().map(|cell| table.label_place(*cell)).collect();

    assert_eq!(
        placed,
        vec![
            (Place::Start, Place::End),
            (Place::Center, Place::Center),
            (Place::Start, Place::End),
            (Place::End, Place::End),
        ],
    );
    assert_eq!(place(Align::Center), Place::Center);
    assert_eq!(table.last_frozen(), None);
    assert_eq!(data_table(vec![leaf("A").sticky(), leaf("B").sticky(), leaf("C")]).last_frozen(), Some(1));
    assert_eq!(table.sizing(), vec![Sizing::default(); 3]);
}

#[test]
fn a_place_that_is_no_number_is_nowhere() {
    let nan = f32::NAN;
    let lefts = all(&[8.0, 50.0, 100.0]);

    assert_eq!(column_at(px(nan), &lefts, px(150.0)), None);
    assert_eq!(column_at(px(60.0), &all(&[8.0, nan, 100.0]), px(150.0)), Some(0));
    assert_eq!(column_at(px(60.0), &lefts, px(nan)), Some(1));
    assert_eq!(screen_x(px(nan), px(40.0), px(1.0), px(2.0)), px(2.0));
    assert_eq!(content_x(px(nan), px(40.0), px(2.0)), px(2.0));
    assert_eq!(nearest(&[0, 3, 5], &all(&[nan, 2.0, 1.0])), Some(5));
    assert_eq!(nearest(&[0, 3], &all(&[nan, nan])), Some(0));
}
