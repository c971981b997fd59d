//! What is in a plan of the header, item by item, and in which order it and the
//! layers of the table are painted.

use vstd::prelude::*;
use crate::header_paint::{layers_of, HeaderItem, HeaderView, Layer};
use crate::paint::{one_if, run, Side};
use crate::paint_laws::{both_hold, one_if_holds, run_holds, the_header_holds};
use crate::sort::Direction;
use crate::table::DataTable;

verus! {

/// How late an item of the header is painted.
pub open spec fn lateness(item: HeaderItem) -> int {
    match item {
        HeaderItem::Ground => 0,
        HeaderItem::GroupGround(_) => 1,
        HeaderItem::ColumnBand(_) => 2,
        HeaderItem::ClosingRail { .. } => 3,
        HeaderItem::OpeningRail(_) => 3,
        HeaderItem::Underline(_) => 3,
        HeaderItem::GutterDivider(_) => 4,
        HeaderItem::ControlGround(_) => 5,
        HeaderItem::Arrow { .. } => 5,
        HeaderItem::Label(_) => 6,
        HeaderItem::Divider => 7,
    }
}

/// All of the items are as late as this.
spec fn all_at(items: Seq<HeaderItem>, late: int) -> bool {
    forall|i: int| 0 <= i < items.len() ==> lateness(#[trigger] items[i]) == late
}

proof fn a_run_is_at(low: int, high: int, items: spec_fn(int) -> Seq<HeaderItem>, late: int)
    requires
        forall|k: int| low <= k < high ==> all_at(#[trigger] items(k), late),
    ensures
        all_at(run(low, high, items), late),
    decreases high - low,
{
    if low < high {
        a_run_is_at(low, high - 1, items, late);
        assert(all_at(items(high - 1), late));
    }
}

proof fn grounds_are_apart<E>(table: DataTable<E>, view: HeaderView)
    ensures
        all_at(one_if(view.paints.ground, HeaderItem::Ground), 0),
        all_at(table.group_grounds(view), 1),
        all_at(table.header_bands(view), 2),
{
    let count = table.header_cells@.len() as int;

    a_run_is_at(0, count, |k: int| table.group_ground(view, k), 1);
    a_run_is_at(0, count, |k: int| table.column_band(view, k), 2);
}

proof fn rails_are_apart<E>(table: DataTable<E>, view: HeaderView)
    ensures
        all_at(table.all_rails(view), 3),
        all_at(table.gutters(view), 4),
{
    let count = table.header_cells@.len() as int;

    a_run_is_at(0, count, |k: int| table.rails(view, k), 3);
}

proof fn controls_are_apart<E>(table: DataTable<E>, view: HeaderView)
    ensures
        all_at(table.controls(view), 5),
{
    let count = table.header_cells@.len() as int;

    a_run_is_at(0, count, |k: int| table.control(view, k), 5);
}

proof fn labels_are_apart<E>(table: DataTable<E>, view: HeaderView)
    ensures
        all_at(table.labels(view), 6),
        all_at(one_if(view.paints.divider, HeaderItem::Divider), 7),
{
    let count = table.header_cells@.len() as int;

    a_run_is_at(0, count, |k: int| table.label(view, k), 6);
}

/// Nothing is painted before what it covers.
pub open spec fn painted_in_order(items: Seq<HeaderItem>, low: int, high: int) -> bool {
    &&& forall|i: int| 0 <= i < items.len() ==> low <= lateness(#[trigger] items[i]) <= high
    &&& forall|i: int, j: int|
        #![trigger items[i], items[j]]
        0 <= i <= j < items.len() ==> lateness(items[i]) <= lateness(items[j])
}

proof fn parts_in_order(a: Seq<HeaderItem>, b: Seq<HeaderItem>, low: int, middle: int, late: int)
    requires
        painted_in_order(a, low, middle),
        all_at(b, late),
        low <= middle <= late,
    ensures
        painted_in_order(a + b, low, late),
{
}

/// The header is painted from the ground up: the ground, the grounds of the groups,
/// the bands of selected columns, the rules, those of the gutters, the sort
/// controls, the labels, and the rule above the body over everything.
pub proof fn the_header_is_painted_from_the_ground_up<E>(table: DataTable<E>, view: HeaderView)
    ensures
        painted_in_order(table.header(view), 0, 7),
{
    let p0 = one_if(view.paints.ground, HeaderItem::Ground);
    let p1 = table.group_grounds(view);
    let p2 = table.header_bands(view);
    let p3 = table.all_rails(view);
    let p4 = table.gutters(view);
    let p5 = table.controls(view);
    let p6 = table.labels(view);
    let p7 = one_if(view.paints.divider, HeaderItem::Divider);

    grounds_are_apart(table, view);
    rails_are_apart(table, view);
    controls_are_apart(table, view);
    labels_are_apart(table, view);
    assert(painted_in_order(p0, 0, 0));
    parts_in_order(p0, p1, 0, 0, 1);
    parts_in_order(p0 + p1, p2, 0, 1, 2);
    parts_in_order(p0 + p1 + p2, p3, 0, 2, 3);
    parts_in_order(p0 + p1 + p2 + p3, p4, 0, 3, 4);
    parts_in_order(p0 + p1 + p2 + p3 + p4, p5, 0, 4, 5);
    parts_in_order(p0 + p1 + p2 + p3 + p4 + p5, p6, 0, 5, 6);
    parts_in_order(p0 + p1 + p2 + p3 + p4 + p5 + p6, p7, 0, 6, 7);
}

proof fn other_kinds_lack(items: Seq<HeaderItem>, late: int, item: HeaderItem)
    requires
        all_at(items, late),
        lateness(item) != late,
    ensures
        !items.contains(item),
{
}

/// An item is in the header exactly if it is in the part that its kind belongs to.
proof fn the_part_holds<E>(table: DataTable<E>, view: HeaderView, item: HeaderItem)
    ensures
        table.header(view).contains(item) <==> match item {
            HeaderItem::Ground => view.paints.ground,
            HeaderItem::GroupGround(_) => table.group_grounds(view).contains(item),
            HeaderItem::ColumnBand(_) => table.header_bands(view).contains(item),
            HeaderItem::ClosingRail { .. } => table.all_rails(view).contains(item),
            HeaderItem::OpeningRail(_) => table.all_rails(view).contains(item),
            HeaderItem::Underline(_) => table.all_rails(view).contains(item),
            HeaderItem::GutterDivider(_) => table.gutters(view).contains(item),
            HeaderItem::ControlGround(_) => table.controls(view).contains(item),
            HeaderItem::Arrow { .. } => table.controls(view).contains(item),
            HeaderItem::Label(_) => table.labels(view).contains(item),
            HeaderItem::Divider => view.paints.divider,
        },
{
    let late = lateness(item);

    the_header_holds(table, view, item);
    grounds_are_apart(table, view);
    rails_are_apart(table, view);
    controls_are_apart(table, view);
    labels_are_apart(table, view);
    one_if_holds(view.paints.ground, HeaderItem::Ground, item);
    one_if_holds(view.paints.divider, HeaderItem::Divider, item);
    if late != 1 {
        other_kinds_lack(table.group_grounds(view), 1, item);
    }
    if late != 2 {
        other_kinds_lack(table.header_bands(view), 2, item);
    }
    if late != 3 {
        other_kinds_lack(table.all_rails(view), 3, item);
    }
    if late != 4 {
        other_kinds_lack(table.gutters(view), 4, item);
    }
    if late != 5 {
        other_kinds_lack(table.controls(view), 5, item);
    }
    if late != 6 {
        other_kinds_lack(table.labels(view), 6, item);
    }
}

/// The whole header has a ground, and a rule above the body, if the style has them.
pub proof fn the_header_has_its_ground_and_its_rule<E>(table: DataTable<E>, view: HeaderView)
    ensures
        table.header(view).contains(HeaderItem::Ground) <==> view.paints.ground,
        table.header(view).contains(HeaderItem::Divider) <==> view.paints.divider,
{
    the_part_holds(table, view, HeaderItem::Ground);
    the_part_holds(table, view, HeaderItem::Divider);
}

/// Every group has its own ground, and no leaf has one.
pub proof fn every_group_has_its_ground<E>(table: DataTable<E>, view: HeaderView, k: usize)
    requires
        k < table.header_cells@.len() <= usize::MAX,
    ensures
        table.header(view).contains(HeaderItem::GroupGround(k)) <==> view.paints.group_ground
            && !table.header_cells@[k as int].leaf,
{
    let item = HeaderItem::GroupGround(k);
    let grounds = |k: int| table.group_ground(view, k);
    let count = table.header_cells@.len() as int;

    the_part_holds(table, view, item);
    run_holds(0, count, grounds, item);
    assert forall|i: int| 0 <= i < count implies (#[trigger] grounds(i).contains(item) <==> i == k
        && view.paints.group_ground && !table.header_cells@[i].leaf) by {
        one_if_holds(
            view.paints.group_ground && !table.header_cells@[i].leaf,
            HeaderItem::GroupGround(i as usize),
            item,
        );
    }
    let shown = grounds(k as int).contains(item);
}

proof fn the_rails_of_a_cell<E>(table: DataTable<E>, view: HeaderView, k: int, item: HeaderItem)
    requires
        0 <= k <= usize::MAX,
    ensures
        ({
            let cell = table.header_cells@[k];
            let heavy = !cell.leaf && view.paints.group_dividers;

            table.rails(view, k).contains(item) <==> {
                ||| {
                    &&& item == HeaderItem::ClosingRail { cell: k as usize, heavy }
                    &&& heavy || view.paints.column_dividers
                    &&& cell.end + 1 < table.columns@.len()
                }
                ||| {
                    &&& item == HeaderItem::OpeningRail(k as usize)
                    &&& heavy
                    &&& cell.start > 0
                }
                ||| {
                    &&& item == HeaderItem::Underline(k as usize)
                    &&& view.paints.underlines
                    &&& cell.row + cell.row_span < table.header_rows
                }
            }
        }),
{
    let cell = table.header_cells@[k];
    let heavy = !cell.leaf && view.paints.group_dividers;
    let closes = (heavy || view.paints.column_dividers) && cell.end + 1 < table.columns@.len();
    let opens = view.paints.group_dividers && !cell.leaf && cell.start > 0;
    let lined = view.paints.underlines && cell.row + cell.row_span < table.header_rows;
    let a = one_if(closes, HeaderItem::ClosingRail { cell: k as usize, heavy });
    let b = one_if(opens, HeaderItem::OpeningRail(k as usize));
    let c = one_if(lined, HeaderItem::Underline(k as usize));

    one_if_holds(closes, HeaderItem::ClosingRail { cell: k as usize, heavy }, item);
    one_if_holds(opens, HeaderItem::OpeningRail(k as usize), item);
    one_if_holds(lined, HeaderItem::Underline(k as usize), item);
    both_hold(a, b, item);
    both_hold(a + b, c, item);
}

/// A cell is closed off at its right unless it ends with the table: a group by a
/// group's rule, if the style has one, and otherwise by that of a column. A group is
/// opened at its left unless it begins with the table. A label is underlined unless
/// it stands on the body.
pub proof fn every_cell_is_ruled_off<E>(
    table: DataTable<E>,
    view: HeaderView,
    k: usize,
    heavy: bool,
)
    requires
        k < table.header_cells@.len() <= usize::MAX,
    ensures
        ({
            let cell = table.header_cells@[k as int];
            let plan = table.header(view);
            let grouped = !cell.leaf && view.paints.group_dividers;

            &&& plan.contains(HeaderItem::ClosingRail { cell: k, heavy }) <==> heavy == grouped && (
            heavy || view.paints.column_dividers) && cell.end + 1 < table.columns@.len()
            &&& plan.contains(HeaderItem::OpeningRail(k)) <==> grouped && cell.start > 0
            &&& plan.contains(HeaderItem::Underline(k)) <==> view.paints.underlines && cell.row
                + cell.row_span < table.header_rows
        }),
{
    let count = table.header_cells@.len() as int;
    let rails = |k: int| table.rails(view, k);
    let closing = HeaderItem::ClosingRail { cell: k, heavy };
    let opening = HeaderItem::OpeningRail(k);
    let under = HeaderItem::Underline(k);

    the_part_holds(table, view, closing);
    the_part_holds(table, view, opening);
    the_part_holds(table, view, under);
    run_holds(0, count, rails, closing);
    run_holds(0, count, rails, opening);
    run_holds(0, count, rails, under);
    assert forall|i: int| 0 <= i < count && i != k implies !(#[trigger] rails(i)).contains(closing)
        && !rails(i).contains(opening) && !rails(i).contains(under) by {
        the_rails_of_a_cell(table, view, i, closing);
        the_rails_of_a_cell(table, view, i, opening);
        the_rails_of_a_cell(table, view, i, under);
    }
    the_rails_of_a_cell(table, view, k as int, closing);
    the_rails_of_a_cell(table, view, k as int, opening);
    the_rails_of_a_cell(table, view, k as int, under);
    let shown = rails(k as int).contains(closing);
}

/// Both gutters are ruled off from the columns, where there are any.
pub proof fn gutters_are_ruled_off<E>(table: DataTable<E>, view: HeaderView, side: Side)
    ensures
        table.header(view).contains(HeaderItem::GutterDivider(side)) <==> view.paints.gutter_dividers
            && view.laid_out > 0 && (side is Left || side is Right),
{
    let both = table.gutters(view);

    the_part_holds(table, view, HeaderItem::GutterDivider(side));
    if view.paints.gutter_dividers && view.laid_out > 0 {
        assert(both[0] == HeaderItem::GutterDivider(Side::Left));
        assert(both[1] == HeaderItem::GutterDivider(Side::Right));
    }
}

proof fn the_control_of_a_cell<E>(table: DataTable<E>, view: HeaderView, k: int, item: HeaderItem)
    requires
        0 <= k <= usize::MAX,
    ensures
        ({
            let cell = table.header_cells@[k];
            let has = view.laid_out == table.columns@.len() && table.hears_sort && cell.leaf
                && table.columns@[cell.start as int].sortable;

            table.control(view, k).contains(item) <==> has && {
                ||| {
                    &&& item == HeaderItem::ControlGround(k as usize)
                    &&& view.hovered_sort == Some(cell.start)
                    &&& view.paints.control_ground
                }
                ||| {
                    &&& item matches HeaderItem::Arrow { cell: at, up, lit }
                    &&& at == k
                    &&& lit == (match table.sort {
                        Some(sort) => sort.column == cell.start && up == (sort.direction
                            == Direction::Ascending),
                        None => false,
                    })
                    &&& lit ==> view.paints.lit_arrows
                    &&& !lit ==> view.paints.unlit_arrows
                }
            }
        }),
{
    let cell = table.header_cells@[k];
    let lights = view.hovered_sort == Some(cell.start) && view.paints.control_ground;
    let ground = one_if(lights, HeaderItem::ControlGround(k as usize));
    let up = table.arrow(view, k, true);
    let down = table.arrow(view, k, false);
    let runs_up = crate::header_paint::runs(table.sort, cell.start, true);
    let runs_down = crate::header_paint::runs(table.sort, cell.start, false);

    one_if_holds(lights, HeaderItem::ControlGround(k as usize), item);
    one_if_holds(
        if runs_up { view.paints.lit_arrows } else { view.paints.unlit_arrows },
        HeaderItem::Arrow { cell: k as usize, up: true, lit: runs_up },
        item,
    );
    one_if_holds(
        if runs_down { view.paints.lit_arrows } else { view.paints.unlit_arrows },
        HeaderItem::Arrow { cell: k as usize, up: false, lit: runs_down },
        item,
    );
    both_hold(ground, up, item);
    both_hold(ground + up, down, item);
}

/// The leaf of a column that can be sorted has both arrows, once the columns are laid
/// out: the upper one lit while the column runs up, the lower one while it runs
/// down, and neither while another column is sorted. It has a ground of its own
/// while the pointer is on it. No other cell has any of these.
pub proof fn sortable_columns_have_both_arrows<E>(
    table: DataTable<E>,
    view: HeaderView,
    k: usize,
    up: bool,
    lit: bool,
)
    requires
        k < table.header_cells@.len() <= usize::MAX,
    ensures
        ({
            let cell = table.header_cells@[k as int];
            let plan = table.header(view);
            let has = view.laid_out == table.columns@.len() && table.hears_sort && cell.leaf
                && table.columns@[cell.start as int].sortable;
            let runs = match table.sort {
                Some(sort) => sort.column == cell.start && up == (sort.direction
                    == Direction::Ascending),
                None => false,
            };

            &&& plan.contains(HeaderItem::Arrow { cell: k, up, lit }) <==> has && lit == runs && (
            if lit {
                view.paints.lit_arrows
            } else {
                view.paints.unlit_arrows
            })
            &&& plan.contains(HeaderItem::ControlGround(k)) <==> has && view.hovered_sort == Some(
                cell.start,
            ) && view.paints.control_ground
        }),
{
    let count = table.header_cells@.len() as int;
    let controls = |k: int| table.control(view, k);
    let arrow = HeaderItem::Arrow { cell: k, up, lit };
    let ground = HeaderItem::ControlGround(k);

    the_part_holds(table, view, arrow);
    the_part_holds(table, view, ground);
    run_holds(0, count, controls, arrow);
    run_holds(0, count, controls, ground);
    assert forall|i: int| 0 <= i < count && i != k implies !(#[trigger] controls(i)).contains(arrow)
        && !controls(i).contains(ground) by {
        the_control_of_a_cell(table, view, i, arrow);
        the_control_of_a_cell(table, view, i, ground);
    }
    the_control_of_a_cell(table, view, k as int, arrow);
    the_control_of_a_cell(table, view, k as int, ground);
    let shown = controls(k as int).contains(arrow);
}

/// How far up a layer is.
pub open spec fn height(layer: Layer, sticky: usize) -> int {
    match layer {
        Layer::Ground => 0,
        Layer::Body { start, .. } => if start >= sticky {
            1
        } else {
            2
        },
        Layer::Header { start, .. } => if start >= sticky {
            3
        } else {
            4
        },
        Layer::Seam => 5,
        Layer::Scrollbars => 6,
        Layer::Carried => 7,
        Layer::Frame => 8,
    }
}

/// Each layer is over all that come before it, and none is higher than this.
pub open spec fn rising(layers: Seq<Layer>, sticky: usize, top: int) -> bool {
    &&& forall|i: int| 0 <= i < layers.len() ==> height(#[trigger] layers[i], sticky) <= top
    &&& forall|i: int, j: int|
        #![trigger layers[i], layers[j]]
        0 <= i < j < layers.len() ==> height(layers[i], sticky) < height(layers[j], sticky)
}

proof fn one_layer_more(
    layers: Seq<Layer>,
    sticky: usize,
    top: int,
    there: bool,
    layer: Layer,
    other: Layer,
)
    requires
        rising(layers, sticky, top),
        there ==> height(layer, sticky) > top,
    ensures
        rising(
            layers + one_if(there, layer),
            sticky,
            if there {
                height(layer, sticky)
            } else {
                top
            },
        ),
        (layers + one_if(there, layer)).contains(other) <==> layers.contains(other) || (there
            && other == layer),
{
    both_hold(layers, one_if(there, layer), other);
    one_if_holds(there, layer, other);
}

/// The layers of the table are painted from the ground up: scrolling columns under
/// frozen ones, the body under the header, then the seam, the scrollbars, the
/// carried column and the frame. None of them is there twice. The columns are those
/// that scroll and those that are frozen, as far as there are any and room for them.
pub proof fn every_layer_is_in_its_place(
    sticky: usize,
    columns: usize,
    scrolling: bool,
    frozen: bool,
    seam: bool,
    carried: bool,
    framed: bool,
    layer: Layer,
)
    ensures
        ({
            let layers = layers_of(sticky, columns, scrolling, frozen, seam, carried, framed);
            let loose = scrolling && sticky < columns;
            let stuck = frozen && sticky > 0;

            &&& rising(layers, sticky, 8)
            &&& layers.contains(layer) <==> match layer {
                Layer::Ground => true,
                Layer::Body { start, end } => (loose && start == sticky && end == columns) || (stuck
                    && start == 0 && end == sticky),
                Layer::Header { start, end } => (loose && start == sticky && end == columns) || (
                stuck && start == 0 && end == sticky),
                Layer::Seam => stuck && seam,
                Layer::Scrollbars => true,
                Layer::Carried => carried,
                Layer::Frame => framed,
            }
        }),
{
    let loose = scrolling && sticky < columns;
    let stuck = frozen && sticky > 0;
    let p0 = seq![Layer::Ground];
    let l1 = Layer::Body { start: sticky, end: columns };
    let l2 = Layer::Body { start: 0, end: sticky };
    let l3 = Layer::Header { start: sticky, end: columns };
    let l4 = Layer::Header { start: 0, end: sticky };
    let p1 = p0 + one_if(loose, l1);
    let p2 = p1 + one_if(stuck, l2);
    let p3 = p2 + one_if(loose, l3);
    let p4 = p3 + one_if(stuck, l4);
    let p5 = p4 + one_if(stuck && seam, Layer::Seam);
    let p6 = p5 + one_if(true, Layer::Scrollbars);
    let p7 = p6 + one_if(carried, Layer::Carried);
    let p8 = p7 + one_if(framed, Layer::Frame);

    assert(p0[0] == Layer::Ground);
    assert(p0.contains(layer) <==> layer == Layer::Ground);
    assert(rising(p0, sticky, 0));
    one_layer_more(p0, sticky, 0, loose, l1, layer);
    assert(rising(p1, sticky, 1));
    one_layer_more(p1, sticky, 1, stuck, l2, layer);
    assert(rising(p2, sticky, 2));
    one_layer_more(p2, sticky, 2, loose, l3, layer);
    assert(rising(p3, sticky, 3));
    one_layer_more(p3, sticky, 3, stuck, l4, layer);
    assert(rising(p4, sticky, 4));
    one_layer_more(p4, sticky, 4, stuck && seam, Layer::Seam, layer);
    assert(rising(p5, sticky, 5));
    one_layer_more(p5, sticky, 5, true, Layer::Scrollbars, layer);
    one_layer_more(p6, sticky, 6, carried, Layer::Carried, layer);
    assert(rising(p7, sticky, 7));
    one_layer_more(p7, sticky, 7, framed, Layer::Frame, layer);
    assert(rising(p8, sticky, 8));
    assert(p8 == layers_of(sticky, columns, scrolling, frozen, seam, carried, framed));
}

} // verus!
