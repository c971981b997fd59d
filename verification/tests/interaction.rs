//! What the table does about events.

use advanced_table::dragging::Bar;
use advanced_table::header::{group, leaf};
use advanced_table::interaction::{
    reaches_every_row, Button, Click, Drag, Hits, Input, Report, Reveal, Shell, State,
};
use advanced_table::keys::{step, steps, Key, Step, CTRL, LOGO, SHIFT};
use advanced_table::px::{Point, Px};
use advanced_table::scroll::Span;
use advanced_table::selection::{CellPosition, Mode};
use advanced_table::sort::Sort;
use advanced_table::table::DataTable;
use advanced_table::update::{
    pointer_shape, reveal_column, reveal_row, scroll_to, wheel_scrolls, wheel_turn, Drags, Shape,
};
use std::collections::BTreeSet;

fn px(value: f32) -> Px {
    Px::from_bits(value.to_bits())
}

fn point(x: f32, y: f32) -> Point {
    Point { x: px(x), y: px(y) }
}

fn away() -> Hits {
    Hits {
        pointer: None,
        over_table: false,
        over_body: false,
        row: None,
        column: None,
        edge: None,
        header_cell: None,
        grip: px(0.0),
        control: None,
    }
}

fn body(row: usize, column: Option<usize>) -> Hits {
    Hits {
        pointer: Some(point(10.0, 10.0)),
        over_table: true,
        over_body: true,
        row: Some(row),
        column,
        ..away()
    }
}

fn header(cell: usize, column: usize) -> Hits {
    Hits {
        pointer: Some(point(30.0, 5.0)),
        over_table: true,
        header_cell: Some(cell),
        column: Some(column),
        grip: px(7.0),
        ..away()
    }
}

fn still() -> Drags {
    Drags {
        widths: vec![px(50.0); 4],
        reach: px(0.0),
        travel: px(0.0),
        distances: Vec::new(),
        vertical: None,
        horizontal: None,
    }
}

/// Four columns, the middle two in a group, and ten rows; everything is heard.
fn table(rows: &[usize], columns: &[usize], cells: &[(usize, usize)]) -> DataTable<()> {
    let mut table = DataTable::new(vec![
        leaf(()).sortable(),
        group((), vec![leaf(()), leaf(())]),
        leaf(()),
    ])
    .selection(Mode::Multiple, &rows.iter().copied().collect())
    .column_selection(Mode::Multiple, &columns.iter().copied().collect())
    .cell_selection(Mode::Multiple, &cells.iter().copied().collect())
    .sorting(None)
    .on_right_click()
    .on_copy()
    .on_reorder();

    for _ in 0..10 {
        table.push(Vec::new(), || ());
    }
    table
}

fn rows_only(rows: &[usize]) -> DataTable<()> {
    let mut table = table(rows, &[], &[]);

    table.cell_mode = Mode::Off;
    table
}

fn after(table: &DataTable<()>, input: Input, hits: Hits, state: &mut State) -> (bool, Shell) {
    let mut shell = Shell::new();
    let done = table.after_children(&input, &hits, state, &mut shell);

    (done, shell)
}

fn before(
    table: &DataTable<()>,
    input: Input,
    hits: Hits,
    drags: Drags,
    state: &mut State,
) -> (bool, Shell) {
    let mut shell = Shell::new();
    let done = table.before_children(&input, &hits, &drags, state, &mut shell);

    (done, shell)
}

/// The reports, written out.
fn said(shell: &Shell) -> Vec<String> {
    shell.reports.iter().map(|report| format!("{report:?}")).collect()
}

fn key(key: Key, modifiers: u32) -> Input {
    Input::KeyPressed { key, modifiers }
}

#[test]
fn only_positional_events_are_culled() {
    for input in [Input::Moved, Input::Pressed(Button::Left)] {
        assert!(!reaches_every_row(&input), "{input:?} should be culled");
    }
    for input in [Input::ModifiersChanged(0), Input::Released(Button::Left)] {
        assert!(reaches_every_row(&input), "{input:?} must reach every row");
    }
    for input in [Input::FingerLifted, Input::FingerLost, Input::Other, key(Key::Other, 0)] {
        assert!(reaches_every_row(&input), "{input:?} must reach every row");
    }
    for input in [Input::FingerPressed, Input::FingerMoved, Input::Wheel, Input::Mouse] {
        assert!(!reaches_every_row(&input), "{input:?} should be culled");
    }
}

#[test]
fn pressing_a_cell_selects_it_and_clears_the_rest() {
    let table = table(&[3], &[1], &[(5, 5)]);
    let mut state = State::default();
    let (done, shell) =
        after(&table, Input::Pressed(Button::Left), body(2, Some(1)), &mut state);

    assert!(done && shell.captured && shell.redraw);
    assert_eq!(said(&shell), vec!["Cells({(2, 1)})", "Rows({})", "Columns({})"]);
    assert_eq!(state.cell_anchor, Some(CellPosition::new(2, 1)));
    assert_eq!(state.cell_focus, Some(CellPosition::new(2, 1)));
}

#[test]
fn a_press_in_the_gutter_selects_the_row() {
    let table = table(&[], &[], &[(5, 1)]);
    let mut state = State::default();
    let (done, shell) = after(&table, Input::Pressed(Button::Left), body(2, None), &mut state);

    assert!(done);
    assert_eq!(said(&shell), vec!["Rows({2})", "Cells({})"]);
    assert_eq!(state.anchor, Some(2));
}

#[test]
fn held_modifiers_reach_the_selection() {
    let mut state = State::default();

    before(&rows_only(&[]), Input::ModifiersChanged(SHIFT), away(), still(), &mut state);
    assert_eq!(state.modifiers, SHIFT);
    state.anchor = Some(2);

    let (_, shell) =
        after(&rows_only(&[2]), Input::Pressed(Button::Left), body(4, None), &mut state);

    assert_eq!(said(&shell), vec!["Rows({2, 3, 4})"]);
    assert_eq!(state.anchor, Some(2));

    // One of the two is the command key, whatever the platform.
    let mut state = State::default();

    state.modifiers = CTRL | LOGO;
    let (_, shell) =
        after(&rows_only(&[2]), Input::Pressed(Button::Left), body(4, None), &mut state);

    assert_eq!(said(&shell), vec!["Rows({2, 4})"]);
    assert!(matches!(&state.drag, Some(Drag::Rows(base)) if *base == BTreeSet::from([2, 4])));
}

#[test]
fn a_sweep_gives_ground_back() {
    let mut state = State::default();

    after(&rows_only(&[]), Input::Pressed(Button::Left), body(2, None), &mut state);

    let (done, shell) = after(&rows_only(&[2]), Input::Moved, body(5, None), &mut state);

    assert!(done && shell.captured);
    assert_eq!(said(&shell), vec!["Rows({2, 3, 4, 5})"]);

    let (_, shell) = after(&rows_only(&[2, 3, 4, 5]), Input::Moved, body(3, None), &mut state);

    assert_eq!(said(&shell), vec!["Rows({2, 3})"]);
    assert_eq!(state.row_focus, Some(3));

    // Standing still reports nothing.
    let (done, shell) = after(&rows_only(&[2, 3]), Input::Moved, body(3, None), &mut state);

    assert!(done && !shell.redraw && shell.reports.is_empty());

    let (done, _) =
        after(&rows_only(&[2, 3]), Input::Released(Button::Left), body(3, None), &mut state);

    assert!(!done && state.drag.is_none());
}

#[test]
fn cells_sweep_a_rectangle_and_columns_a_range() {
    let mut state = State::default();

    after(&table(&[], &[], &[]), Input::Pressed(Button::Left), body(1, Some(1)), &mut state);
    let (_, shell) = after(&table(&[], &[], &[(1, 1)]), Input::Moved, body(2, Some(2)), &mut state);

    assert_eq!(said(&shell), vec!["Cells({(1, 1), (1, 2), (2, 1), (2, 2)})"]);

    let mut state = State::default();

    state.drag = Some(Drag::Columns(BTreeSet::from([9])));
    state.column_anchor = Some(0);
    let (_, shell) = after(&table(&[], &[], &[]), Input::FingerMoved, header(0, 2), &mut state);

    assert_eq!(said(&shell), vec!["Columns({0, 1, 2, 9})"]);
}

#[test]
fn a_sweep_clears_what_another_reading_selected_meanwhile() {
    let mut state = State::default();

    // A drag over rows is under way, and a right-click has selected a cell.
    state.drag = Some(Drag::Rows(BTreeSet::new()));
    state.anchor = Some(2);

    let (_, shell) =
        after(&table(&[], &[], &[(4, 1)]), Input::Moved, body(3, Some(1)), &mut state);

    assert_eq!(said(&shell), vec!["Rows({2, 3})", "Cells({})"]);
    assert!(shell.captured && shell.redraw);
}

/// As [`table`], where at most one row, column or cell can be selected.
fn single(rows: &[usize], columns: &[usize], cells: &[(usize, usize)]) -> DataTable<()> {
    let mut table = table(rows, columns, cells);

    table.mode = Mode::Single;
    table.column_mode = Mode::Single;
    table.cell_mode = Mode::Single;
    table
}

#[test]
fn a_single_mode_follows_a_sweep_with_one_item() {
    let mut state = State::default();

    after(&single(&[], &[], &[]), Input::Pressed(Button::Left), body(1, Some(1)), &mut state);

    let (done, shell) =
        after(&single(&[], &[], &[(1, 1)]), Input::Moved, body(4, Some(2)), &mut state);

    assert!(done);
    assert_eq!(said(&shell), vec!["Cells({(4, 2)})"]);

    // With the command key held the drag starts from what was selected.
    let mut state = State::default();

    state.modifiers = CTRL | LOGO;
    after(&single(&[7], &[], &[]), Input::Pressed(Button::Left), body(1, None), &mut state);
    let (_, shell) = after(&single(&[1], &[], &[]), Input::Moved, body(3, None), &mut state);

    assert_eq!(said(&shell), vec!["Rows({3})"]);

    let mut state = State::default();

    state.drag = Some(Drag::Columns(BTreeSet::from([9])));
    state.column_anchor = Some(0);
    let (_, shell) = after(&single(&[], &[], &[]), Input::FingerMoved, header(0, 2), &mut state);

    assert_eq!(said(&shell), vec!["Columns({2})"]);
}

#[test]
fn a_single_mode_steps_with_one_item_even_with_shift() {
    let rows = |selected: &[usize]| {
        let mut table = single(selected, &[], &[]);

        table.cell_mode = Mode::Off;
        table
    };
    let mut state = State::default();

    state.focused = true;
    state.anchor = Some(0);
    state.row_focus = Some(0);

    let (_, shell) = after(&rows(&[0]), key(Key::Down, SHIFT), away(), &mut state);

    assert_eq!(said(&shell), vec!["Rows({1})"]);
    assert_eq!((state.anchor, state.row_focus), (Some(1), Some(1)));

    let mut state = State::default();

    state.focused = true;
    state.cell_anchor = Some(CellPosition::new(1, 1));
    state.cell_focus = Some(CellPosition::new(1, 1));

    let (_, shell) =
        after(&single(&[], &[], &[(1, 1)]), key(Key::Right, SHIFT), away(), &mut state);

    assert_eq!(said(&shell), vec!["Cells({(1, 2)})"]);
    assert_eq!(state.cell_anchor, Some(CellPosition::new(1, 2)));
}

#[test]
fn the_held_shift_turns_the_wheel() {
    let mut state = State::default();

    assert_eq!(wheel_turn(px(1.0), px(2.0), true, false, &state), point(1.0, 2.0));
    state.modifiers = SHIFT;
    assert_eq!(wheel_turn(px(1.0), px(2.0), true, false, &state), point(2.0, 1.0));
    assert_eq!(wheel_turn(px(1.0), px(2.0), true, true, &state), point(1.0, 2.0));
}

#[test]
fn a_header_of_empty_groups_takes_no_part_in_events() {
    let table = DataTable::new(vec![group((), Vec::new())]);
    let mut state = State::default();

    assert!(!table.is_sound());
    assert!(!after(&table, Input::Pressed(Button::Left), away(), &mut state).0);
    assert!(!after(&table, key(Key::Down, 0), away(), &mut state).0);
}

#[test]
fn a_right_click_moves_the_selection_only_from_outside() {
    let mut state = State::default();
    let click = Click { row: Some(4), column: None, position: point(10.0, 10.0) };
    let (done, shell) = after(
        &rows_only(&[3, 4]),
        Input::Pressed(Button::Right),
        body(4, None),
        &mut state,
    );

    assert!(done && shell.captured);
    assert_eq!(said(&shell), vec![format!("{:?}", Report::RightClick(click))]);

    let (_, shell) =
        after(&rows_only(&[3]), Input::Pressed(Button::Right), body(4, None), &mut state);

    assert_eq!(said(&shell)[0], "Rows({4})");

    let (_, shell) = after(
        &table(&[3], &[], &[]),
        Input::Pressed(Button::Right),
        body(4, Some(1)),
        &mut state,
    );

    assert_eq!(&said(&shell)[..2], ["Cells({(4, 1)})", "Rows({})"]);

    let over_header = Hits { over_body: false, row: None, ..body(0, Some(2)) };
    let (_, shell) =
        after(&table(&[3], &[], &[]), Input::Pressed(Button::Right), over_header, &mut state);

    assert_eq!(&said(&shell)[..2], ["Columns({2})", "Rows({})"]);
}

#[test]
fn arrows_step_and_shift_arrows_grow() {
    let mut state = State::default();

    state.focused = true;
    state.cell_anchor = Some(CellPosition::new(1, 1));
    state.cell_focus = Some(CellPosition::new(1, 1));

    let (done, shell) =
        after(&table(&[], &[], &[(1, 1)]), key(Key::Down, SHIFT), away(), &mut state);

    assert!(done && shell.captured && shell.redraw);
    assert_eq!(said(&shell), vec!["Cells({(1, 1), (2, 1)})"]);
    assert_eq!(shell.reveal, Some(Reveal::Cell(CellPosition::new(2, 1))));

    let (_, shell) = after(
        &table(&[], &[], &[(1, 1), (2, 1)]),
        key(Key::Down, SHIFT),
        away(),
        &mut state,
    );

    assert_eq!(said(&shell), vec!["Cells({(1, 1), (2, 1), (3, 1)})"]);
    assert_eq!(state.cell_anchor, Some(CellPosition::new(1, 1)));

    let (_, shell) = after(
        &table(&[], &[], &[(1, 1), (2, 1), (3, 1)]),
        key(Key::Left, 0),
        away(),
        &mut state,
    );

    assert_eq!(said(&shell), vec!["Cells({(3, 0)})"]);
    assert_eq!(state.cell_anchor, Some(CellPosition::new(3, 0)));
}

#[test]
fn arrows_start_from_the_last_of_what_is_selected() {
    let mut state = State::default();

    state.focused = true;
    let (_, shell) =
        after(&table(&[], &[], &[(2, 3), (5, 0), (5, 1)]), key(Key::Up, 0), away(), &mut state);

    assert_eq!(said(&shell), vec!["Cells({(4, 1)})"]);

    let mut state = State::default();

    state.focused = true;
    let (_, shell) = after(&rows_only(&[2, 7]), key(Key::Down, 0), away(), &mut state);

    assert_eq!(said(&shell), vec!["Rows({8})"]);
    assert_eq!(shell.reveal, Some(Reveal::Row(8)));

    let (done, _) = after(&rows_only(&[8]), key(Key::Right, 0), away(), &mut state);

    assert!(!done, "there is nothing to move along");
}

#[test]
fn keys_need_the_focus_that_a_click_gives() {
    let table = rows_only(&[1]);
    let mut state = State::default();

    assert!(!after(&table, key(Key::Down, 0), away(), &mut state).0);
    before(&table, Input::Pressed(Button::Left), body(1, None), still(), &mut state);
    assert!(state.focused);
    assert!(after(&table, key(Key::Down, 0), away(), &mut state).0);
    before(&table, Input::Pressed(Button::Other), away(), still(), &mut state);
    assert!(!state.focused);
}

#[test]
fn the_copy_shortcut_needs_a_selection() {
    let mut state = State::default();
    let c = |text: &str| Key::Character(String::from(text));
    let command = CTRL | LOGO;

    state.focused = true;
    assert_eq!(said(&after(&rows_only(&[1]), key(c("c"), command), away(), &mut state).1), ["Copy"]);
    assert_eq!(said(&after(&rows_only(&[1]), key(c("C"), command), away(), &mut state).1), ["Copy"]);
    assert!(!after(&rows_only(&[]), key(c("c"), command), away(), &mut state).0);
    assert!(!after(&rows_only(&[1]), key(c("c"), 0), away(), &mut state).0);
    assert!(!after(&rows_only(&[1]), key(c("cc"), command), away(), &mut state).0);
    assert!(!after(&rows_only(&[1]), key(c("x"), command), away(), &mut state).0);
}

#[test]
fn the_pointer_hovers_rows_and_controls() {
    let table = rows_only(&[]);
    let mut state = State::default();
    let hits = Hits { control: Some(0), ..body(6, None) };
    let (done, shell) = after(&table, Input::Moved, hits, &mut state);

    assert!(!done && shell.redraw);
    assert_eq!((state.hovered, state.hovered_sort), (Some(6), Some(0)));
    assert!(!after(&table, Input::Moved, hits, &mut state).1.redraw);
}

#[test]
fn a_sort_control_steps_to_the_next_sort() {
    let hits = Hits { control: Some(0), ..header(0, 0) };
    let mut state = State::default();
    let (done, shell) =
        after(&table(&[], &[], &[]), Input::Pressed(Button::Left), hits, &mut state);

    assert!(done);
    assert_eq!(said(&shell), vec![format!("{:?}", Report::Sort(Some(Sort::ascending(0))))]);
    assert!(state.reorder.is_none());

    let sorted = table(&[], &[], &[]).sorting(Some(Sort::descending(0)));
    let (_, shell) = after(&sorted, Input::Pressed(Button::Left), hits, &mut state);

    assert_eq!(said(&shell), vec!["Sort(None)"]);
}

#[test]
fn pressing_a_header_selects_its_columns() {
    let mut state = State::default();
    let (done, shell) = after(
        &table(&[4], &[], &[]),
        Input::Pressed(Button::Left),
        header(1, 1),
        &mut state,
    );

    // A group is all of its columns.
    assert!(done);
    assert_eq!(said(&shell), vec!["Columns({1, 2})", "Rows({})"]);
    assert!(state.reorder.is_none(), "a group is not picked up");
    assert!(matches!(&state.drag, Some(Drag::Columns(base)) if base.is_empty()));

    let mut single = table(&[], &[], &[]);

    single.column_mode = Mode::Single;
    let (_, shell) =
        after(&single, Input::Pressed(Button::Left), header(1, 1), &mut State::default());

    assert_eq!(said(&shell), vec!["Columns({1})"]);
}

#[test]
fn a_column_is_picked_up_carried_and_put_down() {
    let table = table(&[], &[], &[]);
    let mut state = State::default();

    after(&table, Input::Pressed(Button::Left), header(0, 0), &mut state);
    let carry = state.reorder.as_ref().expect("picked up");

    assert_eq!((carry.column, carry.origin, carry.grab), (0, px(30.0), px(7.0)));
    assert_eq!(carry.slots, vec![0, 1, 3, 4]);
    assert!(state.drag.is_none(), "only one drag at a time");

    let nudge = Drags { travel: px(3.9), distances: vec![px(1.0); 4], ..still() };

    assert!(!before(&table, Input::Moved, header(0, 0), nudge, &mut state).0);
    assert_eq!(state.reorder.as_ref().unwrap().target, None);

    let far = Drags {
        travel: px(60.0),
        distances: vec![px(60.0), px(40.0), px(10.0), px(30.0)],
        ..still()
    };
    let (done, shell) = before(&table, Input::Moved, header(0, 0), far, &mut state);

    assert!(done && shell.captured && shell.redraw);
    assert_eq!(state.reorder.as_ref().unwrap().target, Some(3));
    assert_eq!(pointer_shape(true, &header(0, 0), false, &state), Shape::Grabbing);

    let (done, shell) =
        before(&table, Input::Released(Button::Left), header(0, 0), still(), &mut state);

    assert!(done);
    assert_eq!(said(&shell), vec!["Reorder { from: 0, to: 2 }"]);
    assert!(state.reorder.is_none());
}

#[test]
fn a_click_on_a_header_moves_nothing() {
    let table = table(&[], &[], &[]);
    let mut state = State::default();

    after(&table, Input::Pressed(Button::Left), header(0, 0), &mut state);
    let (done, shell) =
        before(&table, Input::Released(Button::Left), header(0, 0), still(), &mut state);

    assert!(!done && shell.redraw && shell.reports.is_empty());

    // Nor does a column that is put back where it was.
    after(&table, Input::Pressed(Button::Left), header(0, 0), &mut state);
    let back = Drags {
        travel: px(9.0),
        distances: vec![px(9.0), px(2.0), px(90.0), px(99.0)],
        ..still()
    };

    before(&table, Input::Moved, header(0, 0), back, &mut state);
    assert_eq!(state.reorder.as_ref().unwrap().target, Some(1));
    let (_, shell) =
        before(&table, Input::Released(Button::Left), header(0, 0), still(), &mut state);

    assert!(shell.reports.is_empty());
}

#[test]
fn modifiers_keep_a_header_press_a_selection() {
    let mut state = State::default();

    state.modifiers = SHIFT;
    after(&table(&[], &[], &[]), Input::Pressed(Button::Left), header(0, 0), &mut state);
    assert!(state.reorder.is_none());
    assert!(matches!(&state.drag, Some(Drag::Columns(_))));
}

#[test]
fn an_edge_is_dragged_from_where_it_was_grabbed() {
    let table = table(&[], &[], &[]);
    let mut state = State::default();

    state.widths.settle(4);
    let hits = Hits { edge: Some(1), ..header(2, 1) };
    let (done, shell) =
        before(&table, Input::Pressed(Button::Left), hits, still(), &mut state);

    assert!(done && shell.relayout && shell.redraw && shell.captured);
    assert_eq!(state.widths.overrides, vec![Some(px(50.0)); 4]);
    assert_eq!(state.resizing.unwrap().origin_width, px(50.0));
    assert_eq!(state.resizing.unwrap().origin_x, px(30.0));
    assert_eq!(pointer_shape(true, &away(), false, &state), Shape::Resizing);

    let wide = Drags { reach: px(81.0), ..still() };

    before(&table, Input::Moved, header(2, 1), wide, &mut state);
    assert_eq!(state.widths.overrides[1], Some(px(81.0)));

    let narrow = Drags { reach: px(3.0), ..still() };

    before(&table, Input::Moved, header(2, 1), narrow, &mut state);
    assert_eq!(state.widths.overrides[1], Some(px(32.0)));
    assert_eq!(state.widths.overrides[0], Some(px(50.0)));

    before(&table, Input::Released(Button::Left), header(2, 1), still(), &mut state);
    assert!(state.resizing.is_none());

    let fixed = table.resizable(false);

    assert!(!before(&fixed, Input::Pressed(Button::Left), hits, still(), &mut state).0);
}

#[test]
fn a_thumb_is_dragged_and_a_track_is_jumped_to() {
    let table = table(&[], &[], &[]);
    let mut state = State::default();
    let bar = |on_thumb: bool| Bar {
        on_track: true,
        on_thumb,
        hold: px(3.0),
        centre: px(12.0),
        follow: px(70.0),
        jump: px(55.0),
    };
    let drags = |on_thumb: bool| Drags { vertical: Some(bar(on_thumb)), ..still() };

    assert!(before(&table, Input::Pressed(Button::Left), body(0, None), drags(true), &mut state).0);
    assert_eq!((state.y_grab, state.offset.y), (Some(px(3.0)), px(0.0)));
    assert!(before(&table, Input::Moved, body(0, None), drags(true), &mut state).0);
    assert_eq!(state.offset.y, px(70.0));

    let (_, shell) =
        before(&table, Input::Released(Button::Left), body(0, None), still(), &mut state);

    assert!(shell.redraw && state.y_grab.is_none());
    assert!(before(&table, Input::FingerPressed, body(0, None), drags(false), &mut state).0);
    assert_eq!((state.y_grab, state.offset.y), (Some(px(12.0)), px(55.0)));

    let across = Drags { horizontal: Some(bar(false)), ..still() };

    assert!(before(&table, Input::Pressed(Button::Left), body(0, None), across, &mut state).0);
    assert_eq!((state.x_grab, state.offset.x), (Some(px(12.0)), px(55.0)));
}

#[test]
fn a_wheel_at_the_end_is_left_to_others() {
    let mut state = State::default();
    let mut shell = Shell::new();
    let over = body(0, None);

    assert!(wheel_scrolls(&Input::Wheel, &over, &shell));
    assert!(!wheel_scrolls(&Input::Wheel, &away(), &shell));
    assert!(!wheel_scrolls(&Input::Moved, &over, &shell));

    scroll_to(point(-5.0, 0.0), point(9.0, 9.0), &mut state, &mut shell);
    assert!(!shell.captured);
    scroll_to(point(0.0, 50.0), point(9.0, 9.0), &mut state, &mut shell);
    assert!(shell.captured && shell.redraw);
    assert_eq!(state.offset, point(0.0, 9.0));
    assert!(!wheel_scrolls(&Input::Wheel, &over, &shell));
}

#[test]
fn the_focus_is_scrolled_into_view_but_a_frozen_column_is_not() {
    let mut state = State::default();
    let span = Span {
        start: px(100.0),
        end: px(120.0),
        near: px(0.0),
        far: px(60.0),
        to_start: px(100.0),
        to_end: px(60.0),
    };
    let limit = point(500.0, 40.0);

    reveal_row(span, limit, &mut state);
    assert_eq!(state.offset, point(0.0, 40.0));
    reveal_column(1, 2, 8, span, limit, &mut state);
    assert_eq!(state.offset.x, px(0.0));
    reveal_column(8, 2, 8, span, limit, &mut state);
    assert_eq!(state.offset.x, px(0.0));
    reveal_column(2, 2, 8, span, limit, &mut state);
    assert_eq!(state.offset.x, px(60.0));
}

#[test]
fn the_pointer_shows_what_it_is_on() {
    let state = State::default();
    let edge = Hits { edge: Some(0), ..header(0, 0) };

    assert_eq!(pointer_shape(true, &edge, true, &state), Shape::Resizing);
    assert_eq!(pointer_shape(false, &edge, true, &state), Shape::Idle);
    assert_eq!(pointer_shape(true, &header(0, 0), false, &state), Shape::Contents);
}

#[test]
fn steps_stay_inside_the_table() {
    assert_eq!(step(0, Step::Back, 5), 0);
    assert_eq!(step(4, Step::Forward, 5), 4);
    assert_eq!(step(2, Step::Forward, 5), 3);
    assert_eq!(step(9, Step::Stay, 5), 4);
    assert_eq!(step(9, Step::Back, 5), 4);
    assert_eq!(step(usize::MAX, Step::Forward, 1), 0);
    assert_eq!(steps(&Key::Left), Some((Step::Stay, Step::Back)));
    assert_eq!(steps(&Key::Other), None);
}

#[test]
fn nobody_is_told_what_nobody_listens_for() {
    let mut table = table(&[3], &[1], &[]);

    table.hears_rows = false;
    table.hears_columns = false;
    table.hears_cells = false;
    let (done, shell) =
        after(&table, Input::Pressed(Button::Left), body(2, Some(1)), &mut State::default());

    assert!(done && shell.reports.is_empty());
}
