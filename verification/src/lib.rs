//! A data table with multi-level headers, frozen columns, sorting, resizing,
//! reordering, and selection of rows, columns and cells.
//!
//! This crate decides; the widget around it measures and paints. What it
//! decides with is plain: indices, sets of indices, and lengths that are only
//! ever compared ([`px`]). What it decides is stated in the contract of each
//! function and proved.
//!
//! # Structure
//!
//! - [`header`] -- the header tree, its flattening into spans and leaves, and
//!   where a dragged column may land.
//! - [`selection`] -- what a click makes of a selection.
//! - [`sort`] -- the cycle of a column's sort.
//! - [`sizing`], [`layout`] -- which columns grow, shrink and keep their width.
//! - [`scroll`] -- scroll offsets and scrollbars.
//! - [`table`] -- the table as a value.
//! - [`hit`] -- what lies under a point.
//! - [`interaction`], [`dragging`], [`selecting`], [`update`] -- what the table
//!   does about an event.
//! - [`paint`], [`header_paint`], [`brush`], [`frame`], [`style`] -- what is
//!   painted, in which order and in which shade.
//! - [`records`], [`columns`], [`text`], [`demo`] -- an application around it.
//!
//! What holds of all of it at once is stated apart from the functions it is about:
//!
//! - of the header, in [`header_laws`], [`header_walk_laws`], [`header_shape_laws`]
//!   and [`columns_laws`];
//! - of what an event leads to, in [`selection_laws`], [`interaction_laws`],
//!   [`gesture_laws`], [`key_laws`], [`click_laws`] and [`drag_laws`];
//! - of lengths and places, in [`measure_laws`], [`sizing_laws`], [`scroll_laws`],
//!   [`hit_laws`] and [`frame_laws`];
//! - of what is painted, in [`paint_laws`], [`plan_laws`] and [`header_plan_laws`];
//! - of the application, in [`text_laws`], [`clipboard_laws`] and [`demo_laws`].
//!
//! # Who owns what
//!
//! The application owns the selections, the sort and the order of the columns.
//! The table is handed them, draws them, and reports what they should become.
//!
//! Groups are **presentation only**. The leaves are the real columns: they own
//! sizing, ordering, sort and resize. Everything above them is decoration that
//! spans leaf ranges.

pub mod brush;
pub mod click_laws;
pub mod clipboard_laws;
pub mod columns;
pub mod columns_laws;
pub mod demo;
pub mod demo_laws;
pub mod drag_laws;
pub mod dragging;
pub mod frame;
pub mod frame_laws;
pub mod gesture_laws;
pub mod header;
pub mod header_laws;
pub mod header_paint;
pub mod header_plan_laws;
pub mod header_shape_laws;
pub mod header_walk_laws;
pub mod hit;
pub mod hit_laws;
pub mod interaction;
pub mod interaction_laws;
pub mod key_laws;
pub mod keys;
pub mod layout;
pub mod measure_laws;
pub mod paint;
pub mod paint_laws;
pub mod plan_laws;
pub mod px;
pub mod records;
pub mod scroll;
pub mod scroll_laws;
pub mod selecting;
pub mod selection;
pub mod selection_laws;
pub mod sizing;
pub mod sizing_laws;
pub mod sort;
pub mod style;
pub mod table;
pub mod text;
pub mod text_laws;
pub mod update;

use vstd::prelude::*;

pub use header::{group, leaf, ColumnSpec, HeaderNode};
pub use interaction::Click;
pub use scroll::Policy;
pub use selection::{reorder, CellPosition, Mode as SelectionMode};
pub use sizing::{Overflow, Sizing};
pub use sort::{Direction, Sort};
pub use style::{Cell, CellStyle, Style};
pub use table::DataTable;

verus! {

/// Convenience constructor: a table with this header and no rows yet.
pub fn data_table<E>(headers: Vec<HeaderNode<E>>) -> (table: DataTable<E>)
    requires
        header::forest_nodes(headers@) < usize::MAX,
    ensures
        table.wf(),
        table.is_fresh(headers@),
        header_laws::forest_filled(headers@) ==> table.fits(),
{
    DataTable::new(headers)
}

} // verus!
