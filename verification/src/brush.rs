//! What each item is painted with.
//!
//! A plan says what is painted and in which order; the style says with what. An
//! item is planned only where the style has something to paint it with.

use vstd::prelude::*;
use crate::header_paint::{header_paints_of, HeaderItem, HeaderPaints, HeaderView};
use crate::paint::{
    body_paints_of, cell_marks, one_if, row_outline, run, BodyItem, BodyPaints, BodyView, Side,
};
use crate::style::Style;
use crate::table::DataTable;

verus! {

/// Something to paint with: a fill for areas, or the colour of a rule.
#[derive(Debug, Clone, Copy, PartialEq, Eq)]
pub enum Brush<B, C> {
    Fill(B),
    Line(C),
}

/// The brush of a fill, if there is one.
pub open spec fn fill_of<B, C>(fill: Option<B>) -> Option<Brush<B, C>> {
    match fill {
        Some(fill) => Some(Brush::Fill(fill)),
        None => None,
    }
}

/// The brush of a rule, if there is one.
pub open spec fn line_of<B, C>(line: Option<C>) -> Option<Brush<B, C>> {
    match line {
        Some(line) => Some(Brush::Line(line)),
        None => None,
    }
}

fn fill_with<B: Copy, C>(fill: Option<B>) -> (brush: Option<Brush<B, C>>)
    ensures
        brush == fill_of::<B, C>(fill),
{
    match fill {
        Some(fill) => Some(Brush::Fill(fill)),
        None => None,
    }
}

fn line_with<B, C: Copy>(line: Option<C>) -> (brush: Option<Brush<B, C>>)
    ensures
        brush == line_of::<B, C>(line),
{
    match line {
        Some(line) => Some(Brush::Line(line)),
        None => None,
    }
}

impl<B: Copy, C: Copy, F> Style<B, C, F> {
    /// What an item of the body is painted with. `own` is the background that
    /// the cell's own style asks for. Contents paint themselves.
    pub open spec fn paints_body(&self, item: BodyItem, own: Option<B>) -> Option<Brush<B, C>> {
        match item {
            BodyItem::Stripe(_) => fill_of(self.alternate_row_background),
            BodyItem::ColumnBand(_) => fill_of(self.selected_column_background),
            BodyItem::CellBackground { .. } => fill_of(own),
            BodyItem::Hover(_) => fill_of(self.hovered_row_background),
            BodyItem::SelectedRow(_) => fill_of(self.selected_row_background),
            BodyItem::RowDivider(_) => line_of(self.row_divider),
            BodyItem::ColumnDivider(_) => line_of(self.column_divider),
            BodyItem::GutterDivider(_) => line_of(self.gutter_divider),
            BodyItem::RowOutline { .. } => line_of(self.selected_row_border),
            BodyItem::CellFill { .. } => fill_of(self.selected_cell_background),
            BodyItem::CellEdge { .. } => line_of(self.selected_cell_border),
            BodyItem::Contents { .. } => None,
        }
    }

    /// What an item of the body is painted with.
    pub fn body_brush(&self, item: BodyItem, own: Option<B>) -> (brush: Option<Brush<B, C>>)
        ensures
            brush == self.paints_body(item, own),
    {
        match item {
            BodyItem::Stripe(_) => fill_with(self.alternate_row_background),
            BodyItem::ColumnBand(_) => fill_with(self.selected_column_background),
            BodyItem::CellBackground { .. } => fill_with(own),
            BodyItem::Hover(_) => fill_with(self.hovered_row_background),
            BodyItem::SelectedRow(_) => fill_with(self.selected_row_background),
            BodyItem::RowDivider(_) => line_with(self.row_divider),
            BodyItem::ColumnDivider(_) => line_with(self.column_divider),
            BodyItem::GutterDivider(_) => line_with(self.gutter_divider),
            BodyItem::RowOutline { .. } => line_with(self.selected_row_border),
            BodyItem::CellFill { .. } => fill_with(self.selected_cell_background),
            BodyItem::CellEdge { .. } => line_with(self.selected_cell_border),
            BodyItem::Contents { .. } => None,
        }
    }

    /// What an item of the header is painted with. A rule that closes a group is
    /// a group's rule, and an arrow is lit if the column runs its way. Labels
    /// paint themselves.
    pub open spec fn paints_header(&self, item: HeaderItem) -> Option<Brush<B, C>> {
        match item {
            HeaderItem::Ground => fill_of(self.header_background),
            HeaderItem::GroupGround(_) => fill_of(self.group_background),
            HeaderItem::ColumnBand(_) => fill_of(self.selected_column_background),
            HeaderItem::ClosingRail { heavy, .. } => line_of(
                if heavy { self.group_divider } else { self.column_divider },
            ),
            HeaderItem::OpeningRail(_) => line_of(self.group_divider),
            HeaderItem::Underline(_) => line_of(self.row_divider),
            HeaderItem::GutterDivider(_) => line_of(self.gutter_divider),
            HeaderItem::ControlGround(_) => fill_of(self.sort_hovered_background),
            HeaderItem::Arrow { lit, .. } => line_of(
                if lit { self.sort_indicator } else { self.sort_indicator_inactive },
            ),
            HeaderItem::Label(_) => None,
            HeaderItem::Divider => line_of(self.header_divider),
        }
    }

    /// What an item of the header is painted with.
    pub fn header_brush(&self, item: HeaderItem) -> (brush: Option<Brush<B, C>>)
        ensures
            brush == self.paints_header(item),
    {
        match item {
            HeaderItem::Ground => fill_with(self.header_background),
            HeaderItem::GroupGround(_) => fill_with(self.group_background),
            HeaderItem::ColumnBand(_) => fill_with(self.selected_column_background),
            HeaderItem::ClosingRail { heavy, .. } => if heavy {
                line_with(self.group_divider)
            } else {
                line_with(self.column_divider)
            },
            HeaderItem::OpeningRail(_) => line_with(self.group_divider),
            HeaderItem::Underline(_) => line_with(self.row_divider),
            HeaderItem::GutterDivider(_) => line_with(self.gutter_divider),
            HeaderItem::ControlGround(_) => fill_with(self.sort_hovered_background),
            HeaderItem::Arrow { lit, .. } => if lit {
                line_with(self.sort_indicator)
            } else {
                line_with(self.sort_indicator_inactive)
            },
            HeaderItem::Label(_) => None,
            HeaderItem::Divider => line_with(self.header_divider),
        }
    }

    /// The colour that a label inherits.
    pub open spec fn label_color(&self, leaf: bool, around: C) -> C {
        if !leaf && self.group_text is Some {
            self.group_text->0
        } else if self.header_text is Some {
            self.header_text->0
        } else {
            around
        }
    }

    /// The colour that a label inherits: that of a group falls back to that of a
    /// column, and that of a column to what surrounds the table.
    pub fn label_text(&self, leaf: bool, around: C) -> (color: C)
        ensures
            color == self.label_color(leaf, around),
    {
        match (leaf, self.group_text, self.header_text) {
            (false, Some(color), _) => color,
            (_, _, Some(color)) => color,
            _ => around,
        }
    }

    /// The colour that the contents of a cell inherit.
    pub open spec fn contents_color(&self, own: Option<C>, around: C) -> C {
        if own is Some {
            own->0
        } else if self.text is Some {
            self.text->0
        } else {
            around
        }
    }

    /// The colour that the contents of a cell inherit: the cell's own, then that
    /// of the body, then what surrounds the table.
    pub fn contents_text(&self, own: Option<C>, around: C) -> (color: C)
        ensures
            color == self.contents_color(own, around),
    {
        match (own, self.text) {
            (Some(color), _) => color,
            (None, Some(color)) => color,
            _ => around,
        }
    }

    /// What a scrollbar's thumb is filled with.
    pub open spec fn thumb_fill(&self, hovered: bool) -> B {
        if hovered {
            self.scrollbar_thumb_hovered
        } else {
            self.scrollbar_thumb
        }
    }

    /// What a scrollbar's thumb is filled with.
    pub fn thumb(&self, hovered: bool) -> (fill: B)
        ensures
            fill == self.thumb_fill(hovered),
    {
        if hovered {
            self.scrollbar_thumb_hovered
        } else {
            self.scrollbar_thumb
        }
    }
}

/// Every one of the items is to be kept.
spec fn all<T>(items: Seq<T>, keep: spec_fn(T) -> bool) -> bool {
    forall|i: int| 0 <= i < items.len() ==> keep(#[trigger] items[i])
}

proof fn all_of_a_run<T>(low: int, high: int, items: spec_fn(int) -> Seq<T>, keep: spec_fn(T) -> bool)
    requires
        forall|k: int| low <= k < high ==> all(#[trigger] items(k), keep),
    ensures
        all(run(low, high, items), keep),
    decreases high - low,
{
    if high > low {
        all_of_a_run(low, high - 1, items, keep);
        assert(all(items(high - 1), keep));
    }
}

/// Does the style paint items of this kind?
pub open spec fn asked_of_body(paints: BodyPaints, item: BodyItem) -> bool {
    match item {
        BodyItem::Stripe(_) => paints.stripes,
        BodyItem::ColumnBand(_) => paints.column_bands,
        BodyItem::Hover(_) => paints.hover,
        BodyItem::SelectedRow(_) => paints.selected_rows,
        BodyItem::RowDivider(_) => paints.row_dividers,
        BodyItem::ColumnDivider(_) => paints.column_dividers,
        BodyItem::GutterDivider(_) => paints.gutter_dividers,
        BodyItem::RowOutline { .. } => paints.row_outline,
        BodyItem::CellFill { .. } => paints.cell_fill,
        BodyItem::CellEdge { .. } => paints.cell_outline,
        BodyItem::CellBackground { .. } => true,
        BodyItem::Contents { .. } => true,
    }
}

proof fn rows_are_asked_for<E>(table: DataTable<E>, view: BodyView)
    ensures
        ({
            let keep = |item: BodyItem| asked_of_body(view.paints, item);

            &&& all(table.stripes(view), keep)
            &&& all(table.column_bands(view), keep)
            &&& all(table.hover(view), keep)
            &&& all(table.selected_rows(view), keep)
            &&& all(table.row_dividers(view), keep)
            &&& all(table.column_dividers(view), keep)
            &&& all(table.gutter_dividers(view), keep)
            &&& all(table.row_outlines(view), keep)
        }),
{
    let keep = |item: BodyItem| asked_of_body(view.paints, item);
    let first = view.first as int;
    let last = view.last as int;
    let laid_out = view.laid_out as int;

    all_of_a_run(
        first,
        last,
        |row: int| one_if(view.paints.stripes && row % 2 == 1, BodyItem::Stripe(row as usize)),
        keep,
    );
    all_of_a_run(
        0,
        laid_out,
        |column: int|
            one_if(
                view.paints.column_bands && table.selected_columns@.contains(column as usize),
                BodyItem::ColumnBand(column as usize),
            ),
        keep,
    );
    all_of_a_run(
        first,
        last,
        |row: int|
            one_if(
                view.paints.selected_rows && table.selected@.contains(row as usize),
                BodyItem::SelectedRow(row as usize),
            ),
        keep,
    );
    all_of_a_run(
        first,
        last,
        |row: int|
            one_if(view.paints.row_dividers && row > 0, BodyItem::RowDivider(row as usize)),
        keep,
    );
    all_of_a_run(
        0,
        laid_out,
        |column: int|
            one_if(
                view.paints.column_dividers && column > 0,
                BodyItem::ColumnDivider(column as usize),
            ),
        keep,
    );
    all_of_a_run(
        first,
        last,
        |row: int|
            if view.paints.row_outline {
                row_outline(table.selected@, row)
            } else {
                seq![]
            },
        keep,
    );
}

proof fn cells_are_asked_for<E>(table: DataTable<E>, view: BodyView)
    ensures
        ({
            let keep = |item: BodyItem| asked_of_body(view.paints, item);

            &&& all(table.cell_backgrounds(view), keep)
            &&& all(table.marked_cells(view), keep)
            &&& all(table.contents(view), keep)
        }),
{
    let keep = |item: BodyItem| asked_of_body(view.paints, item);
    let first = view.first as int;
    let last = view.last as int;
    let start = view.start as int;
    let end = view.end as int;
    let backgrounds = |row: int|
        run(
            start,
            end,
            |column: int|
                one_if(
                    view.colours(table.columns@.len() as int, row, column),
                    BodyItem::CellBackground { row: row as usize, column: column as usize },
                ),
        );
    let marks = |row: int|
        run(
            start,
            view.reach(),
            |column: int| cell_marks(table.selected_cells@, view.paints, row, column),
        );
    let contents = |row: int|
        run(
            start,
            end,
            |column: int| seq![BodyItem::Contents { row: row as usize, column: column as usize }],
        );

    assert forall|row: int| first <= row < last implies all(#[trigger] backgrounds(row), keep) by {
        all_of_a_run(
            start,
            end,
            |column: int|
                one_if(
                    view.colours(table.columns@.len() as int, row, column),
                    BodyItem::CellBackground { row: row as usize, column: column as usize },
                ),
            keep,
        );
    }
    assert forall|row: int| first <= row < last implies all(#[trigger] marks(row), keep) by {
        all_of_a_run(
            start,
            view.reach(),
            |column: int| cell_marks(table.selected_cells@, view.paints, row, column),
            keep,
        );
    }
    assert forall|row: int| first <= row < last implies all(#[trigger] contents(row), keep) by {
        all_of_a_run(
            start,
            end,
            |column: int| seq![BodyItem::Contents { row: row as usize, column: column as usize }],
            keep,
        );
    }
    all_of_a_run(first, last, backgrounds, keep);
    all_of_a_run(first, last, marks, keep);
    all_of_a_run(first, last, contents, keep);
}

/// Nothing is planned for the body that the style does not paint.
pub proof fn the_body_plans_only_what_is_painted<E, B: Copy, C: Copy, F>(
    table: DataTable<E>,
    view: BodyView,
    style: Style<B, C, F>,
    i: int,
    own: Option<B>,
)
    requires
        view.paints == body_paints_of(style),
        0 <= i < table.body(view).len(),
    ensures
        match table.body(view)[i] {
            BodyItem::CellBackground { .. } => true,
            BodyItem::Contents { .. } => true,
            item => style.paints_body(item, own) is Some,
        },
{
    rows_are_asked_for(table, view);
    cells_are_asked_for(table, view);
    let keep = |item: BodyItem| asked_of_body(view.paints, item);

    assert(all(table.body(view), keep));
    assert(keep(table.body(view)[i]));
}

/// Does the style paint items of this kind?
pub open spec fn asked_of_header(paints: HeaderPaints, item: HeaderItem) -> bool {
    match item {
        HeaderItem::Ground => paints.ground,
        HeaderItem::GroupGround(_) => paints.group_ground,
        HeaderItem::ColumnBand(_) => paints.column_bands,
        HeaderItem::ClosingRail { heavy, .. } => if heavy {
            paints.group_dividers
        } else {
            paints.column_dividers
        },
        HeaderItem::OpeningRail(_) => paints.group_dividers,
        HeaderItem::Underline(_) => paints.underlines,
        HeaderItem::GutterDivider(_) => paints.gutter_dividers,
        HeaderItem::ControlGround(_) => paints.control_ground,
        HeaderItem::Arrow { lit, .. } => if lit {
            paints.lit_arrows
        } else {
            paints.unlit_arrows
        },
        HeaderItem::Label(_) => true,
        HeaderItem::Divider => paints.divider,
    }
}

proof fn all_of_both<T>(a: Seq<T>, b: Seq<T>, keep: spec_fn(T) -> bool)
    requires
        all(a, keep),
        all(b, keep),
    ensures
        all(a + b, keep),
{
    assert forall|i: int| 0 <= i < (a + b).len() implies keep(#[trigger] (a + b)[i]) by {
        if i < a.len() {
            assert(keep(a[i]));
        } else {
            assert(keep(b[i - a.len()]));
        }
    }
}

proof fn grounds_and_labels_are_asked_for<E>(table: DataTable<E>, view: HeaderView)
    ensures
        ({
            let keep = |item: HeaderItem| asked_of_header(view.paints, item);

            &&& all(table.group_grounds(view), keep)
            &&& all(table.header_bands(view), keep)
            &&& all(table.labels(view), keep)
        }),
{
    let keep = |item: HeaderItem| asked_of_header(view.paints, item);
    let count = table.header_cells@.len() as int;

    all_of_a_run(0, count, |k: int| table.group_ground(view, k), keep);
    all_of_a_run(0, count, |k: int| table.column_band(view, k), keep);
    all_of_a_run(0, count, |k: int| table.label(view, k), keep);
}

proof fn rails_are_asked_for<E>(table: DataTable<E>, view: HeaderView)
    ensures
        all(table.all_rails(view), |item: HeaderItem| asked_of_header(view.paints, item)),
{
    let keep = |item: HeaderItem| asked_of_header(view.paints, item);

    all_of_a_run(0, table.header_cells@.len() as int, |k: int| table.rails(view, k), keep);
}

proof fn controls_are_asked_for<E>(table: DataTable<E>, view: HeaderView)
    ensures
        all(table.controls(view), |item: HeaderItem| asked_of_header(view.paints, item)),
{
    let keep = |item: HeaderItem| asked_of_header(view.paints, item);

    all_of_a_run(0, table.header_cells@.len() as int, |k: int| table.control(view, k), keep);
}

/// Nothing is planned for the header that the style does not paint.
pub proof fn the_header_plans_only_what_is_painted<E, B: Copy, C: Copy, F>(
    table: DataTable<E>,
    view: HeaderView,
    style: Style<B, C, F>,
    i: int,
)
    requires
        view.paints == header_paints_of(style),
        0 <= i < table.header(view).len(),
    ensures
        !(table.header(view)[i] is Label) ==> style.paints_header(table.header(view)[i]) is Some,
{
    let keep = |item: HeaderItem| asked_of_header(view.paints, item);
    let a = one_if(view.paints.ground, HeaderItem::Ground);
    let b = a + table.group_grounds(view);
    let c = b + table.header_bands(view);
    let d = c + table.all_rails(view);
    let e = d + table.gutters(view);
    let f = e + table.controls(view);
    let g = f + table.labels(view);
    let last = one_if(view.paints.divider, HeaderItem::Divider);

    grounds_and_labels_are_asked_for(table, view);
    rails_are_asked_for(table, view);
    controls_are_asked_for(table, view);
    all_of_both(a, table.group_grounds(view), keep);
    all_of_both(b, table.header_bands(view), keep);
    all_of_both(c, table.all_rails(view), keep);
    all_of_both(d, table.gutters(view), keep);
    all_of_both(e, table.controls(view), keep);
    all_of_both(f, table.labels(view), keep);
    all_of_both(g, last, keep);
    assert(table.header(view) == g + last);
    assert(keep(table.header(view)[i]));
}

/// Grounds, bands and fills of the body are filled with their own part of the style,
/// rules and outlines drawn with theirs; what the style lacks is not painted. A
/// cell's own background is its own, and contents paint themselves.
pub proof fn each_body_item_has_its_own_brush<B: Copy, C: Copy, F>(
    style: Style<B, C, F>,
    own: Option<B>,
    row: usize,
    column: usize,
    side: Side,
    fill: B,
    line: C,
)
    ensures
        ({
            let filled = Some(Brush::<B, C>::Fill(fill));
            let drawn = Some(Brush::<B, C>::Line(line));

            &&& style.alternate_row_background == Some(fill) <==> style.paints_body(
                BodyItem::Stripe(row),
                own,
            ) == filled
            &&& style.selected_column_background == Some(fill) <==> style.paints_body(
                BodyItem::ColumnBand(column),
                own,
            ) == filled
            &&& own == Some(fill) <==> style.paints_body(
                BodyItem::CellBackground { row, column },
                own,
            ) == filled
            &&& style.hovered_row_background == Some(fill) <==> style.paints_body(
                BodyItem::Hover(row),
                own,
            ) == filled
            &&& style.selected_row_background == Some(fill) <==> style.paints_body(
                BodyItem::SelectedRow(row),
                own,
            ) == filled
            &&& style.selected_cell_background == Some(fill) <==> style.paints_body(
                BodyItem::CellFill { row, column },
                own,
            ) == filled
            &&& style.row_divider == Some(line) <==> style.paints_body(
                BodyItem::RowDivider(row),
                own,
            ) == drawn
            &&& style.column_divider == Some(line) <==> style.paints_body(
                BodyItem::ColumnDivider(column),
                own,
            ) == drawn
            &&& style.gutter_divider == Some(line) <==> style.paints_body(
                BodyItem::GutterDivider(side),
                own,
            ) == drawn
            &&& style.selected_row_border == Some(line) <==> style.paints_body(
                BodyItem::RowOutline { row, side },
                own,
            ) == drawn
            &&& style.selected_cell_border == Some(line) <==> style.paints_body(
                BodyItem::CellEdge { row, column, side },
                own,
            ) == drawn
            &&& style.paints_body(BodyItem::Contents { row, column }, own) is None
        }),
{
}

/// Grounds and bands of the header are filled with their own part of the style, rules
/// and arrows drawn with theirs: a group's rule where it is heavy, and the lit
/// colour where the arrow is lit. Labels paint themselves.
pub proof fn each_header_item_has_its_own_brush<B: Copy, C: Copy, F>(
    style: Style<B, C, F>,
    cell: usize,
    up: bool,
    side: Side,
    fill: B,
    line: C,
)
    ensures
        ({
            let filled = Some(Brush::<B, C>::Fill(fill));
            let drawn = Some(Brush::<B, C>::Line(line));

            &&& style.header_background == Some(fill) <==> style.paints_header(HeaderItem::Ground)
                == filled
            &&& style.group_background == Some(fill) <==> style.paints_header(
                HeaderItem::GroupGround(cell),
            ) == filled
            &&& style.selected_column_background == Some(fill) <==> style.paints_header(
                HeaderItem::ColumnBand(cell),
            ) == filled
            &&& style.sort_hovered_background == Some(fill) <==> style.paints_header(
                HeaderItem::ControlGround(cell),
            ) == filled
            &&& style.group_divider == Some(line) <==> style.paints_header(
                HeaderItem::ClosingRail { cell, heavy: true },
            ) == drawn
            &&& style.column_divider == Some(line) <==> style.paints_header(
                HeaderItem::ClosingRail { cell, heavy: false },
            ) == drawn
            &&& style.group_divider == Some(line) <==> style.paints_header(
                HeaderItem::OpeningRail(cell),
            ) == drawn
            &&& style.row_divider == Some(line) <==> style.paints_header(
                HeaderItem::Underline(cell),
            ) == drawn
            &&& style.gutter_divider == Some(line) <==> style.paints_header(
                HeaderItem::GutterDivider(side),
            ) == drawn
            &&& style.sort_indicator == Some(line) <==> style.paints_header(
                HeaderItem::Arrow { cell, up, lit: true },
            ) == drawn
            &&& style.sort_indicator_inactive == Some(line) <==> style.paints_header(
                HeaderItem::Arrow { cell, up, lit: false },
            ) == drawn
            &&& style.header_divider == Some(line) <==> style.paints_header(HeaderItem::Divider)
                == drawn
            &&& style.paints_header(HeaderItem::Label(cell)) is None
        }),
{
}

/// A label has the colour of its kind: a group that of groups if there is one, and
/// both that of columns otherwise; contents have their own before that of the body.
/// What has none has the one around the table.
pub proof fn texts_inherit_their_colour<B: Copy, C: Copy, F>(
    style: Style<B, C, F>,
    own: Option<C>,
    around: C,
)
    ensures
        style.header_text matches Some(color) ==> style.label_color(true, around) == color,
        style.header_text is None ==> style.label_color(true, around) == around,
        style.group_text matches Some(color) ==> style.label_color(false, around) == color,
        style.group_text is None ==> style.label_color(false, around) == style.label_color(
            true,
            around,
        ),
        own matches Some(color) ==> style.contents_color(own, around) == color,
        own is None && style.text is Some ==> style.contents_color(own, around) == style.text->0,
        own is None && style.text is None ==> style.contents_color(own, around) == around,
        style.thumb_fill(true) == style.scrollbar_thumb_hovered,
        style.thumb_fill(false) == style.scrollbar_thumb,
{
}

} // verus!
