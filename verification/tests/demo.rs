//! The demonstration around the table.

use advanced_table::columns::{flat_headers, grouped_headers, headers, pin};
use advanced_table::demo::{overflow_label, rows_label, shown, Demo, Message, Shown, Tone};
use advanced_table::header::{drop_slots, flatten, landing, leaf};
use advanced_table::interaction::Click;
use advanced_table::px::{Point, Px};
use advanced_table::records::{generate, sorted, RowCount, SortKey};
use advanced_table::sizing::Overflow;
use advanced_table::sort::{Direction, Sort};
use advanced_table::style::Cell;
use advanced_table::table::DataTable;
use advanced_table::text::{comes_before, count_lines, decimal, join};
use std::collections::BTreeSet;

fn ids(demo: &Demo) -> Vec<u32> {
    demo.records.iter().map(|record| record.id).collect()
}

fn few() -> Demo {
    let mut demo = Demo::default();

    demo.update(Message::RowsChanged(RowCount::Few));
    demo
}

#[test]
fn records_are_made_by_number() {
    let records = generate(RowCount::Many);

    assert_eq!(records.len(), 500);
    assert_eq!((records[0].id, records[0].first, records[0].last), (1, "Ada", "Lovelace"));
    assert_eq!((records[12].first, records[12].last), ("Edsger", "Dijkstra-van-der-Meulen"));
    assert_eq!(records[1].q3_revenue, 17_919);
    assert_eq!(records[13].q3_cost, (13 * 4241) % 40_000 + 5_000);
    assert_eq!(records[20].q4_revenue, (20 * 6673) % 90_000 + 10_000);
    assert_eq!(records[499].q4_cost, (499 * 3499) % 40_000 + 5_000);
    assert_eq!(generate(RowCount::Huge).len(), 50_000);
}

#[test]
fn sorting_is_stable_in_both_directions() {
    for direction in [Direction::Ascending, Direction::Descending] {
        for column in 0..9 {
            let records = generate(RowCount::Many);
            let result = sorted(&records, Some(SortKey { column, direction }));
            let mut expected = records.clone();

            expected.sort_by(|a, b| {
                let order = match column {
                    0 => a.id.cmp(&b.id),
                    1 => a.first.cmp(b.first),
                    2 => a.last.cmp(b.last),
                    3 => a.q3_revenue.cmp(&b.q3_revenue),
                    4 => a.q3_cost.cmp(&b.q3_cost),
                    5 => a.q4_revenue.cmp(&b.q4_revenue),
                    6 => a.q4_cost.cmp(&b.q4_cost),
                    _ => std::cmp::Ordering::Equal,
                };

                match direction {
                    Direction::Ascending => order,
                    Direction::Descending => order.reverse(),
                }
            });
            assert_eq!(result, expected);
        }
    }
}

#[test]
fn without_a_sort_records_are_in_the_order_of_their_ids() {
    let mut demo = few();

    demo.update(Message::SortChanged(Some(Sort::descending(0))));
    assert_eq!(ids(&demo), vec![3, 2, 1]);
    assert_eq!(demo.status, "sorted by column 0 (Descending)");
    demo.update(Message::SortChanged(Some(Sort::ascending(1))));
    assert_eq!(ids(&demo), vec![1, 3, 2]);
    demo.update(Message::SortChanged(None));
    assert_eq!(ids(&demo), vec![1, 2, 3]);
    assert_eq!(demo.status, "unsorted");
}

#[test]
fn the_demonstration_starts_with_many_rows() {
    let demo = Demo::default();

    assert_eq!(demo.records.len(), 500);
    assert_eq!(demo.order, (0..8).collect::<Vec<usize>>());
    assert_eq!(demo.status, "no row clicked yet");
    assert!(demo.groups && demo.stripes && demo.conditional && demo.sticky && !demo.cells);
}

#[test]
fn the_status_line_says_what_happened() {
    let mut demo = few();
    let click = |row: Option<usize>, column: Option<usize>| {
        Message::RightClicked(Click {
            row,
            column,
            position: Point { x: Px::zero(), y: Px::zero() },
        })
    };
    let mut says = |message: Message| {
        demo.update(message);
        demo.status.clone()
    };

    assert_eq!(says(Message::Open(12)), "clicked row id 12");
    assert_eq!(says(Message::SelectionChanged(BTreeSet::new())), "nothing selected");
    assert_eq!(says(Message::SelectionChanged(BTreeSet::from([4]))), "selected row 4");
    assert_eq!(
        says(Message::SelectionChanged(BTreeSet::from([7, 2, 30]))),
        "selected 3 rows (2..=30)",
    );
    assert_eq!(says(Message::ColumnsChanged(BTreeSet::from([1, 2]))), "2 column(s) selected");
    assert_eq!(says(Message::CellsChanged(BTreeSet::new())), "no cells selected");
    assert_eq!(says(Message::CellsChanged(BTreeSet::from([(3, 1)]))), "selected cell (3, 1)");
    assert_eq!(
        says(Message::CellsChanged(BTreeSet::from([(3, 1), (4, 1)]))),
        "selected 2 cells",
    );
    assert_eq!(says(click(Some(1), Some(2))), "right-click on cell (1, 2)");
    assert_eq!(says(click(Some(1), None)), "right-click on row 1's gutter");
    assert_eq!(says(click(None, Some(2))), "right-click on column 2's header");
    assert_eq!(says(click(None, None)), "right-click outside every cell");
    assert_eq!(says(Message::Reordered(1, 2)), "moved column 1 to 2");
}

#[test]
fn toggles_toggle() {
    let mut demo = few();

    demo.update(Message::CellsChanged(BTreeSet::from([(0, 0)])));
    demo.update(Message::ToggleCells(true));
    assert!(demo.cells && demo.selected_cells.is_empty());
    demo.update(Message::ToggleGroups(false));
    demo.update(Message::ToggleStripes(false));
    demo.update(Message::ToggleConditional(false));
    demo.update(Message::ToggleSticky(false));
    demo.update(Message::OverflowChanged(Overflow::Shrink));
    assert!(!demo.groups && !demo.stripes && !demo.conditional && !demo.sticky);
    assert_eq!(demo.overflow, Overflow::Shrink);
}

#[test]
fn a_sort_follows_its_column() {
    let mut demo = few();

    demo.update(Message::SortChanged(Some(Sort::ascending(1))));
    demo.update(Message::Reordered(1, 2));
    assert_eq!(demo.sort, Some(Sort::ascending(2)));
    assert_eq!(demo.order[2], 1);
    demo.update(Message::Reordered(0, 7));
    assert_eq!(demo.sort, Some(Sort::ascending(1)));
    assert_eq!(demo.order[1], 1);
    demo.update(Message::Reordered(5, 0));
    assert_eq!(demo.sort, Some(Sort::ascending(2)));
    assert_eq!(demo.order[2], 1);
    demo.update(Message::Reordered(0, 99));
    assert_eq!(demo.sort, Some(Sort::ascending(2)));
}

#[test]
fn a_reorder_drops_selections_by_position() {
    let mut demo = few();

    demo.update(Message::ColumnsChanged(BTreeSet::from([1])));
    demo.update(Message::CellsChanged(BTreeSet::from([(1, 1)])));
    demo.update(Message::Reordered(1, 2));
    assert!(demo.selected_columns.is_empty() && demo.selected_cells.is_empty());
}

#[test]
fn cells_are_copied_as_a_rectangle_with_its_gaps_blank() {
    let mut demo = few();

    demo.update(Message::CellsChanged(BTreeSet::from([(0, 0), (1, 1)])));
    assert_eq!(demo.update(Message::Copy), Some(String::from("1\t\n\tGrace")));
    assert_eq!(demo.status, "copied 2 lines");
}

#[test]
fn rows_are_copied_whole_and_columns_over_every_row() {
    let mut demo = few();

    demo.update(Message::SelectionChanged(BTreeSet::from([2])));
    assert_eq!(
        demo.update(Message::Copy),
        Some(String::from("3\tAlan\tTuring\t25838\t13482\t23346\t11998")),
    );
    demo.update(Message::SelectionChanged(BTreeSet::new()));
    demo.update(Message::ColumnsChanged(BTreeSet::from([2, 0])));
    assert_eq!(
        demo.update(Message::Copy),
        Some(String::from("1\tLovelace\n2\tHopper\n3\tTuring")),
    );
    demo.update(Message::ColumnsChanged(BTreeSet::new()));
    demo.update(Message::Open(1));
    assert_eq!(demo.update(Message::Copy), None);
    assert_eq!(demo.status, "clicked row id 1");
}

#[test]
fn values_are_read_through_the_order() {
    let mut demo = few();

    assert_eq!(demo.value(1, 1), "Grace");
    assert_eq!(demo.value(9, 1), "");
    assert_eq!(demo.value(1, 7), "");
    demo.update(Message::Reordered(1, 2));
    assert_eq!(demo.value(1, 1), "Hopper");
    assert_eq!(demo.value(1, 2), "Grace");
}

#[test]
fn the_header_has_three_levels() {
    let f = flatten(grouped_headers(&(0..8).collect()));

    assert_eq!(
        f.elements,
        vec![
            "ID",
            "Contact",
            "First",
            "Last",
            "Financials (Restated, Unaudited)",
            "Q3",
            "Revenue",
            "Cost",
            "Q4",
            "Revenue",
            "Cost",
            "Actions",
        ],
    );
    assert_eq!((f.rows, f.columns.len()), (3, 8));
    assert_eq!(flatten(flat_headers(&vec![3, 7], false)).elements, vec!["Q3 Revenue", "Actions"]);
}

#[test]
fn the_first_two_top_level_nodes_are_pinned() {
    assert_eq!(flatten(headers(&(0..8).collect(), true, true)).sticky_columns, 3);
    assert_eq!(flatten(headers(&(0..8).collect(), false, true)).sticky_columns, 2);
    assert_eq!(flatten(headers(&(0..8).collect(), true, false)).sticky_columns, 0);
    assert!(pin(leaf("A"), true).sticky && !pin(leaf("A"), false).sticky);
}

#[test]
fn a_legal_move_keeps_the_groups_of_the_header() {
    let mut demo = few();

    for column in 0..8 {
        let table = DataTable::new(demo.headers());

        for slot in drop_slots(&table.header_cells, column, table.sticky_columns) {
            let mut order = demo.order.clone();

            advanced_table::reorder(&mut order, column, landing(column, slot));
            let f = flatten(headers(&order, true, true));

            assert_eq!((f.rows, f.cells.len(), f.sticky_columns), (3, 12, 3));
        }
    }
    demo.update(Message::Reordered(3, 4));
    assert_eq!(flatten(demo.headers()).cells.len(), 12);
}

#[test]
fn records_show_amounts_as_money_and_end_in_a_button() {
    let demo = few();
    let record = demo.records[0];

    assert!(matches!(shown(&record, 0), Shown::Text(text) if text == "1"));
    assert!(matches!(shown(&record, 1), Shown::Text(text) if text == "Ada"));
    assert!(matches!(shown(&record, 3), Shown::Text(text) if text == "$10000"));
    assert!(matches!(demo.shown(&record, 7), Shown::Open(1)));
}

#[test]
fn quarters_that_made_money_stand_out() {
    let mut demo = few();
    let at = |row: usize, column: usize| Cell {
        row,
        column,
        selected: false,
        hovered: false,
        column_selected: false,
    };

    // Row 0 took in 10000 for 5000: not more than twice.
    assert_eq!(demo.tone(at(0, 3)), Tone::Plain);
    assert_eq!(demo.tone(at(0, 4)), Tone::Bad);
    // Row 1 took in 16673 for 8499 in the last quarter, and 17919 for 9241 before.
    assert_eq!(demo.tone(at(1, 5)), Tone::Plain);
    assert_eq!(demo.tone(at(1, 6)), Tone::Bad);
    assert_eq!(demo.tone(at(0, 0)), Tone::Plain);
    assert_eq!(demo.tone(at(9, 4)), Tone::Plain);
    demo.records[0].q3_revenue = 10_001;
    assert_eq!(demo.tone(at(0, 3)), Tone::Good);
    assert_eq!(demo.tone(at(0, 4)), Tone::Plain);
    demo.update(Message::ToggleConditional(false));
    assert_eq!(demo.tone(at(0, 3)), Tone::Plain);
}

#[test]
fn text_is_written_joined_counted_and_compared() {
    assert_eq!(decimal(0), "0");
    assert_eq!(decimal(90_210), "90210");
    assert_eq!(decimal(u64::MAX), "18446744073709551615");
    assert_eq!(join(&vec![String::from("a"), String::new(), String::from("b")], "--"), "a----b");
    assert_eq!(join(&Vec::new(), "--"), "");
    for text in ["", "a", "a\n", "a\nb", "\n\n", "a\n\nb\n", "\u{e9}\n\u{fc}"] {
        assert_eq!(count_lines(text), text.lines().count());
    }
    for (a, b) in [("", "a"), ("Ada", "Alan"), ("Ken", "Ken"), ("Radia", "Ada"), ("a", "\u{e9}")] {
        assert_eq!(comes_before(a, b), a < b);
        assert_eq!(comes_before(b, a), b < a);
    }
    assert_eq!(rows_label(RowCount::Huge), "50000 rows");
    assert_eq!(overflow_label(Overflow::Shrink), "Overflow: Shrink");
}

#[test]
fn moves_that_are_offered_keep_the_groups_whole() {
    let labels = |demo: &Demo| -> Vec<&'static str> { flatten(demo.headers()).elements };

    for column in 0..8 {
        let flat = flatten(Demo::default().headers());

        for slot in drop_slots(&flat.cells, column, flat.sticky_columns) {
            let mut demo = Demo::default();

            demo.update(Message::Reordered(column, landing(column, slot)));
            for heading in ["Contact", "Financials (Restated, Unaudited)", "Q3", "Q4"] {
                let count = labels(&demo).iter().filter(|label| **label == heading).count();

                assert_eq!(count, 1, "{heading} after {column} to {slot}");
            }
        }
    }

    // A move that is not offered scatters a group.
    let mut demo = Demo::default();

    demo.update(Message::Reordered(1, 6));
    assert_eq!(labels(&demo).iter().filter(|label| **label == "Contact").count(), 2);
}

#[test]
fn copying_twice_copies_the_same_text_again() {
    let mut demo = Demo::default();

    demo.update(Message::CellsChanged(BTreeSet::from([(0, 0), (1, 1)])));
    assert_eq!(demo.update(Message::Copy), Some("1\t\n\tGrace".to_string()));
    assert_eq!(demo.update(Message::Copy), Some("1\t\n\tGrace".to_string()));
    assert_eq!(demo.status, "copied 2 lines");
}
