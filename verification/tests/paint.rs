//! What is painted, and in which order.

use advanced_table::brush::Brush;
use advanced_table::header::{group, leaf};
use advanced_table::header_paint::{
    header_paints, layers, HeaderItem, HeaderPaints, HeaderView, Layer,
};
use advanced_table::paint::{body_paints, BodyItem, BodyPaints, BodyView, Side};
use advanced_table::px::Px;
use advanced_table::selection::Mode;
use advanced_table::sort::Sort;
use advanced_table::style;
use advanced_table::style::{Cell, CellStyle, Palette, Tint};
use advanced_table::table::DataTable;
use std::collections::BTreeSet;

const PALETTE: Palette<u8> = Palette {
    base: 0,
    weakest: 1,
    weak: 2,
    strong: 3,
    strongest: 4,
    base_text: 5,
    weak_text: 6,
    primary: 7,
    primary_text: 8,
};

fn px(value: f32) -> Px {
    Px::from_bits(value.to_bits())
}

fn nothing() -> BodyPaints {
    BodyPaints {
        stripes: false,
        column_bands: false,
        hover: false,
        selected_rows: false,
        row_dividers: false,
        column_dividers: false,
        gutter_dividers: false,
        row_outline: false,
        cell_fill: false,
        cell_outline: false,
    }
}

fn everything() -> BodyPaints {
    body_paints(&style::default(PALETTE))
}

fn view(paints: BodyPaints) -> BodyView {
    BodyView {
        first: 0,
        last: 3,
        start: 0,
        end: 2,
        laid_out: 2,
        hovered: None,
        backgrounds: Vec::new(),
        paints,
    }
}

fn table(rows: &[usize], columns: &[usize], cells: &[(usize, usize)]) -> DataTable<()> {
    let mut table = DataTable::new(vec![leaf(()), leaf(())])
        .selection(Mode::Multiple, &rows.iter().copied().collect())
        .column_selection(Mode::Multiple, &columns.iter().copied().collect())
        .cell_selection(Mode::Multiple, &cells.iter().copied().collect());

    for _ in 0..3 {
        table.push(Vec::new(), || ());
    }
    table
}

#[test]
fn a_bare_body_is_its_contents() {
    let plan = table(&[0], &[0], &[(0, 0)]).body_plan(&view(nothing()));

    assert_eq!(
        plan,
        vec![
            BodyItem::Contents { row: 0, column: 0 },
            BodyItem::Contents { row: 0, column: 1 },
            BodyItem::Contents { row: 1, column: 0 },
            BodyItem::Contents { row: 1, column: 1 },
            BodyItem::Contents { row: 2, column: 0 },
            BodyItem::Contents { row: 2, column: 1 },
        ],
    );
}

#[test]
fn the_body_is_painted_in_layers() {
    let mut scene = view(everything());

    scene.last = 2;
    scene.hovered = Some(0);
    scene.backgrounds = vec![false, true, false, false];
    let plan = table(&[1], &[1], &[(1, 0)]).body_plan(&scene);

    assert_eq!(
        &plan[..plan.len() - 4],
        [
            BodyItem::Stripe(1),
            BodyItem::ColumnBand(1),
            BodyItem::CellBackground { row: 0, column: 1 },
            BodyItem::Hover(0),
            BodyItem::SelectedRow(1),
            BodyItem::RowDivider(1),
            BodyItem::ColumnDivider(1),
            BodyItem::GutterDivider(Side::Left),
            BodyItem::GutterDivider(Side::Right),
            BodyItem::RowOutline { row: 1, side: Side::Top },
            BodyItem::RowOutline { row: 1, side: Side::Bottom },
            BodyItem::CellFill { row: 1, column: 0 },
            BodyItem::CellEdge { row: 1, column: 0, side: Side::Top },
            BodyItem::CellEdge { row: 1, column: 0, side: Side::Bottom },
            BodyItem::CellEdge { row: 1, column: 0, side: Side::Left },
            BodyItem::CellEdge { row: 1, column: 0, side: Side::Right },
        ],
    );
}

#[test]
fn a_selected_row_is_not_hovered() {
    let mut scene = view(everything());

    scene.hovered = Some(1);
    assert!(!table(&[1], &[], &[]).body_plan(&scene).contains(&BodyItem::Hover(1)));
    assert!(table(&[2], &[], &[]).body_plan(&scene).contains(&BodyItem::Hover(1)));
    scene.hovered = Some(7);
    assert!(!table(&[], &[], &[]).body_plan(&scene).contains(&BodyItem::Hover(7)));
}

#[test]
fn a_run_of_rows_is_boxed_once() {
    let plan = table(&[0, 1], &[], &[]).body_plan(&view(everything()));
    let outline: Vec<BodyItem> = plan
        .into_iter()
        .filter(|item| matches!(item, BodyItem::RowOutline { .. }))
        .collect();

    assert_eq!(
        outline,
        vec![
            BodyItem::RowOutline { row: 0, side: Side::Top },
            BodyItem::RowOutline { row: 1, side: Side::Bottom },
        ],
    );
}

#[test]
fn a_block_of_cells_has_no_inner_edges() {
    let plan =
        table(&[], &[], &[(0, 0), (0, 1), (1, 0), (1, 1)]).body_plan(&view(everything()));
    let edges = plan.iter().filter(|item| matches!(item, BodyItem::CellEdge { .. })).count();

    assert_eq!(edges, 8);
    assert!(!plan.contains(&BodyItem::CellEdge { row: 0, column: 0, side: Side::Right }));
    assert!(!plan.contains(&BodyItem::CellEdge { row: 1, column: 1, side: Side::Top }));
}

#[test]
fn a_band_shows_its_own_columns_only() {
    let mut scene = view(nothing());

    scene.start = 1;
    scene.first = 1;
    let plan = table(&[], &[], &[]).body_plan(&scene);

    assert_eq!(
        plan,
        vec![
            BodyItem::Contents { row: 1, column: 1 },
            BodyItem::Contents { row: 2, column: 1 },
        ],
    );
}

#[test]
fn a_cell_knows_what_it_is_part_of() {
    let table = table(&[2], &[1], &[]);

    assert_eq!(
        table.styled_cell(2, 1, Some(2)),
        Cell { row: 2, column: 1, selected: true, hovered: true, column_selected: true },
    );
    assert_eq!(
        table.styled_cell(0, 0, None),
        Cell { row: 0, column: 0, selected: false, hovered: false, column_selected: false },
    );
}

fn grouped() -> DataTable<()> {
    DataTable::new(vec![
        leaf(()).sortable().sticky(),
        group((), vec![leaf(()), leaf(())]),
        leaf(()),
    ])
    .sorting(Some(Sort::descending(0)))
}

fn header_view(start: usize, end: usize, paints: HeaderPaints) -> HeaderView {
    HeaderView { start, end, laid_out: 4, hovered_sort: Some(0), paints }
}

#[test]
fn the_header_is_painted_in_layers() {
    let paints = header_paints(&style::default(PALETTE));
    let plan = grouped().header_plan(header_view(1, 4, paints));

    assert_eq!(
        plan,
        vec![
            HeaderItem::Ground,
            HeaderItem::GroupGround(1),
            HeaderItem::ClosingRail { cell: 0, heavy: false },
            HeaderItem::ClosingRail { cell: 1, heavy: true },
            HeaderItem::OpeningRail(1),
            HeaderItem::Underline(1),
            HeaderItem::ClosingRail { cell: 2, heavy: false },
            HeaderItem::ClosingRail { cell: 3, heavy: false },
            HeaderItem::GutterDivider(Side::Left),
            HeaderItem::GutterDivider(Side::Right),
            HeaderItem::ControlGround(0),
            HeaderItem::Arrow { cell: 0, up: true, lit: false },
            HeaderItem::Arrow { cell: 0, up: false, lit: true },
            HeaderItem::Label(1),
            HeaderItem::Label(2),
            HeaderItem::Label(3),
            HeaderItem::Label(4),
            HeaderItem::Divider,
        ],
    );
}

#[test]
fn a_selected_column_is_banded_in_the_header() {
    let mut table = grouped();
    let paints = header_paints(&style::default(PALETTE));

    table.selected_columns = BTreeSet::from([0, 2]);

    let bands = |start: usize, end: usize, paints: HeaderPaints| -> Vec<(usize, HeaderItem)> {
        table
            .header_plan(header_view(start, end, paints))
            .into_iter()
            .enumerate()
            .filter(|(_, item)| matches!(item, HeaderItem::ColumnBand(_)))
            .collect()
    };

    // Above the grounds, under the rails; the second column of the group is cell 3.
    assert_eq!(bands(1, 4, paints), vec![(2, HeaderItem::ColumnBand(3))]);
    assert_eq!(bands(0, 1, paints), vec![(2, HeaderItem::ColumnBand(0))]);
    assert_eq!(bands(0, 4, HeaderPaints { column_bands: false, ..paints }), vec![]);
    assert_eq!(
        style::default(PALETTE).header_brush(HeaderItem::ColumnBand(0)),
        style::default(PALETTE).selected_column_background.map(Brush::Fill),
    );
}

#[test]
fn every_label_is_in_one_band() {
    let table = grouped();
    let paints = header_paints(&style::minimal(PALETTE));
    let frozen = table.header_plan(header_view(0, 1, paints));
    let scrolling = table.header_plan(header_view(1, 4, paints));

    for cell in 0..5 {
        let label = HeaderItem::Label(cell);

        assert!(frozen.contains(&label) != scrolling.contains(&label));
    }
}

#[test]
fn layers_come_from_the_ground_up() {
    assert_eq!(
        layers(1, 4, true, true, true, true, true),
        vec![
            Layer::Ground,
            Layer::Body { start: 1, end: 4 },
            Layer::Body { start: 0, end: 1 },
            Layer::Header { start: 1, end: 4 },
            Layer::Header { start: 0, end: 1 },
            Layer::Seam,
            Layer::Scrollbars,
            Layer::Carried,
            Layer::Frame,
        ],
    );
    assert_eq!(
        layers(0, 4, true, false, true, false, false),
        vec![
            Layer::Ground,
            Layer::Body { start: 0, end: 4 },
            Layer::Header { start: 0, end: 4 },
            Layer::Scrollbars,
        ],
    );
    assert_eq!(
        layers(4, 4, true, true, false, false, true),
        vec![
            Layer::Ground,
            Layer::Body { start: 0, end: 4 },
            Layer::Header { start: 0, end: 4 },
            Layer::Scrollbars,
            Layer::Frame,
        ],
    );
}

#[test]
fn the_styles_choose_their_shades() {
    let full = style::default(PALETTE);
    let bare = style::minimal(PALETTE);

    assert_eq!(full.header_background, Some(Tint { color: 2, percent: 100 }));
    assert_eq!(full.alternate_row_background, Some(Tint { color: 1, percent: 100 }));
    assert_eq!(full.selected_row_background, Some(Tint { color: 7, percent: 18 }));
    assert_eq!(full.selected_cell_background, Some(Tint { color: 7, percent: 28 }));
    assert_eq!(full.sort_indicator, Some(Tint { color: 8, percent: 100 }));
    assert_eq!((full.border.width, full.border.radius), (px(1.0), px(5.0)));
    assert_eq!(full.divider_width(), px(1.0));
    assert_ne!(full.group_divider, full.column_divider);
    assert_eq!(bare.column_divider, None);
    assert_eq!(bare.group_divider, None);
    assert_eq!(bare.frozen_divider, None);
    assert_eq!(bare.gutter_divider, None);
    assert_eq!(bare.row_divider, Some(Tint { color: 2, percent: 100 }));
    assert_eq!(bare.alternate_row_background, None);
    assert_eq!(bare.scrollbar_border.radius, px(4.0));
    assert_eq!(bare.sort_indicator_inactive, Some(Tint { color: 5, percent: 30 }));

    let cell = CellStyle::default().background(3).color('x');

    assert_eq!((cell.background, cell.text_color), (Some(3), Some('x')));
    assert_eq!(CellStyle::<u8, u8>::default().background, None);
}

#[test]
fn selections_are_kept_as_sets() {
    assert_eq!(table(&[2, 1, 2], &[], &[]).selected, BTreeSet::from([1, 2]));
}

#[test]
fn each_item_of_the_body_has_its_brush() {
    let style = style::default(PALETTE);
    let own = Some(Tint { color: 42, percent: 10 });
    let cell = BodyItem::CellBackground { row: 0, column: 0 };

    assert_eq!(
        style.body_brush(BodyItem::Stripe(1), own),
        style.alternate_row_background.map(Brush::Fill)
    );
    assert_eq!(
        style.body_brush(BodyItem::RowDivider(1), None),
        style.row_divider.map(Brush::Line)
    );
    assert_eq!(style.body_brush(cell, own), own.map(Brush::Fill));
    assert_eq!(style.body_brush(cell, None), None);
    assert_eq!(style.body_brush(BodyItem::Contents { row: 0, column: 0 }, own), None);
    assert_eq!(style::minimal(PALETTE).body_brush(BodyItem::ColumnDivider(1), None), None);
}

#[test]
fn each_item_of_the_header_has_its_brush() {
    let style = style::default(PALETTE);
    let rail = |heavy| HeaderItem::ClosingRail { cell: 0, heavy };
    let arrow = |lit| HeaderItem::Arrow { cell: 0, up: true, lit };

    assert_eq!(style.header_brush(rail(true)), style.group_divider.map(Brush::Line));
    assert_eq!(style.header_brush(rail(false)), style.column_divider.map(Brush::Line));
    assert_eq!(style.header_brush(arrow(true)), style.sort_indicator.map(Brush::Line));
    assert_eq!(
        style.header_brush(arrow(false)),
        style.sort_indicator_inactive.map(Brush::Line)
    );
    assert_eq!(
        style.header_brush(HeaderItem::Ground),
        style.header_background.map(Brush::Fill)
    );
    assert_eq!(style.header_brush(HeaderItem::Label(0)), None);
}

#[test]
fn text_falls_back_to_what_is_around_it() {
    let mut style = style::default(PALETTE);
    let around = Tint { color: 9, percent: 100 };
    let own = Tint { color: 10, percent: 100 };

    assert_eq!(Some(style.label_text(true, around)), style.header_text);
    assert_eq!(Some(style.label_text(false, around)), style.group_text);
    style.group_text = None;
    assert_eq!(Some(style.label_text(false, around)), style.header_text);
    style.header_text = None;
    assert_eq!(style.label_text(false, around), around);
    assert_eq!(style.contents_text(Some(own), around), own);
    assert_eq!(style.contents_text(None, around), around);
    style.text = Some(own);
    assert_eq!(style.contents_text(None, around), own);
    assert_eq!(style.thumb(true), style.scrollbar_thumb_hovered);
    assert_eq!(style.thumb(false), style.scrollbar_thumb);
}

#[test]
fn everything_in_a_plan_has_a_brush() {
    for style in [style::default(PALETTE), style::minimal(PALETTE)] {
        let plan = table(&[0, 1], &[1], &[(2, 0)]).body_plan(&view(body_paints(&style)));

        for item in plan {
            let contents = matches!(item, BodyItem::Contents { .. });

            assert_eq!(style.body_brush(item, None).is_none(), contents, "{item:?}");
        }
    }
}
