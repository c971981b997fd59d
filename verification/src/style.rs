//! Styles.
//!
//! A style says what each part of the table is painted with, if it is painted at
//! all. The two styles here choose shades of a palette; the colours themselves
//! are the application's.

use vstd::prelude::*;
use crate::px::Px;

verus! {

/// Bit pattern of 1, the width of a rule.
pub const LINE: u32 = 0x3f80_0000;

/// Bit pattern of 4, the radius of a scrollbar's corners.
pub const SOFT: u32 = 0x4080_0000;

/// Bit pattern of 5, the radius of a table's corners.
pub const ROUND: u32 = 0x40a0_0000;

/// The shades a style chooses from: five grounds from the base outward, the
/// text that reads on two of them, and the accent with its text.
#[derive(Debug, Clone, Copy, PartialEq, Eq)]
pub struct Palette<C> {
    pub base: C,
    pub weakest: C,
    pub weak: C,
    pub strong: C,
    pub strongest: C,
    pub base_text: C,
    pub weak_text: C,
    pub primary: C,
    pub primary_text: C,
}

/// A colour and how opaque it is, in percent.
#[derive(Debug, Clone, Copy, PartialEq, Eq)]
pub struct Tint<C> {
    pub color: C,
    pub percent: u8,
}

/// A frame line. Without a tint it is not drawn.
#[derive(Debug, Clone, Copy, PartialEq)]
pub struct Border<C> {
    pub tint: Option<Tint<C>>,
    pub width: Px,
    pub radius: Px,
}

/// How the table is painted: `B` is what it is filled with, `C` what its rules
/// and texts are drawn in, and `F` a frame line.
#[derive(Debug, Clone, Copy, PartialEq, Eq)]
pub struct Style<B, C, F> {
    /// Fills the whole header, every level of it.
    pub header_background: Option<B>,
    /// Painted over `header_background`, and only across the columns each group
    /// actually spans. The same value makes it invisible.
    pub group_background: Option<B>,
    pub row_background: Option<B>,
    /// Applied to odd-indexed rows. `None` disables striping.
    pub alternate_row_background: Option<B>,
    /// Drawn over the row background when a row is selected.
    pub selected_row_background: Option<B>,
    /// Outlines a selected row, at the edges of a *contiguous run* of selected
    /// rows only.
    pub selected_row_border: Option<C>,
    /// Drawn under the selection highlight when a row is hovered.
    pub hovered_row_background: Option<B>,
    /// Vertical band drawn over a selected column, in both header and body.
    pub selected_column_background: Option<B>,
    /// Fill for a selected cell. Drawn above every row and column highlight.
    pub selected_cell_background: Option<B>,
    /// Outline for the selected cells.
    pub selected_cell_border: Option<C>,
    /// Drawn around the outside of the whole table, on top of everything else.
    pub border: F,
    /// Vertical rule between columns. `None` draws nothing.
    pub column_divider: Option<C>,
    /// Vertical rule at the edges of a group's span.
    pub group_divider: Option<C>,
    /// Fill behind the chip that carries a column's header while it is dragged.
    pub reorder_carry_background: Option<B>,
    /// Marks where a dragged column would land if released now.
    pub reorder_indicator: Option<C>,
    /// Vertical rule along the seam between frozen and scrolling columns.
    pub frozen_divider: Option<C>,
    /// Vertical rule closing the gutter off from the columns.
    pub gutter_divider: Option<C>,
    /// Rule between rows. `None` draws nothing.
    pub row_divider: Option<C>,
    /// Heavier rule separating header from body.
    pub header_divider: Option<C>,
    /// Label colour for leaf (column) headers. `None` inherits.
    pub header_text: Option<C>,
    /// Label colour for group headers. Falls back to `header_text`.
    pub group_text: Option<C>,
    /// Body text colour. `None` inherits.
    pub text: Option<C>,
    /// Lights the half of the sort control pointing the way the column runs.
    pub sort_indicator: Option<C>,
    /// The unlit half, and both halves on a column that is not the current sort.
    pub sort_indicator_inactive: Option<C>,
    /// Behind the sort control while the pointer is over it.
    pub sort_hovered_background: Option<B>,
    pub scrollbar_track: Option<B>,
    pub scrollbar_thumb: B,
    pub scrollbar_thumb_hovered: B,
    pub scrollbar_border: F,
}

impl<B, C, F> Style<B, C, F> {
    /// Width of every rule.
    pub fn divider_width(&self) -> (width: Px)
        ensures
            width == (Px { bits: LINE }),
    {
        Px { bits: LINE }
    }
}

/// One body cell as a per-cell style sees it.
#[derive(Debug, Clone, Copy, PartialEq, Eq, Structural)]
pub struct Cell {
    pub row: usize,
    pub column: usize,
    /// This cell's row is in the selection.
    pub selected: bool,
    /// The pointer is over this cell's row.
    pub hovered: bool,
    /// This cell's column is in the selection.
    pub column_selected: bool,
}

/// How one cell differs from the rest of the table.
#[derive(Debug, Clone, Copy, PartialEq, Eq)]
pub struct CellStyle<B, C> {
    /// Fill, above the stripes and column bands, below every selection.
    pub background: Option<B>,
    /// Text colour that the cell's contents inherit.
    pub text_color: Option<C>,
}

impl<B, C> Default for CellStyle<B, C> {
    fn default() -> (style: Self)
        ensures
            style == (CellStyle { background: None::<B>, text_color: None::<C> }),
    {
        CellStyle { background: None, text_color: None }
    }
}

impl<B, C> CellStyle<B, C> {
    pub fn background(self, background: B) -> (style: Self)
        ensures
            style == (CellStyle { background: Some(background), ..self }),
    {
        CellStyle { background: Some(background), text_color: self.text_color }
    }

    pub fn color(self, color: C) -> (style: Self)
        ensures
            style == (CellStyle { text_color: Some(color), ..self }),
    {
        CellStyle { background: self.background, text_color: Some(color) }
    }
}

/// The length with this bit pattern.
pub open spec fn px(bits: u32) -> Px {
    Px { bits }
}

/// Every part of the table drawn, with striped rows and rules on both axes.
pub open spec fn full_style<C>(palette: Palette<C>) -> Style<Tint<C>, Tint<C>, Border<C>> {
    Style {
        header_background: Some(Tint { color: palette.weak, percent: 100 }),
        group_background: Some(Tint { color: palette.weak, percent: 100 }),
        row_background: Some(Tint { color: palette.base, percent: 100 }),
        alternate_row_background: Some(Tint { color: palette.weakest, percent: 100 }),
        selected_row_background: Some(Tint { color: palette.primary, percent: 18 }),
        selected_row_border: Some(Tint { color: palette.primary, percent: 100 }),
        hovered_row_background: Some(Tint { color: palette.weak, percent: 100 }),
        selected_column_background: Some(Tint { color: palette.primary, percent: 18 }),
        selected_cell_background: Some(Tint { color: palette.primary, percent: 28 }),
        selected_cell_border: Some(Tint { color: palette.primary, percent: 100 }),
        border: Border {
            tint: Some(Tint { color: palette.strongest, percent: 100 }),
            width: px(LINE),
            radius: px(ROUND),
        },
        column_divider: Some(Tint { color: palette.strong, percent: 100 }),
        group_divider: Some(Tint { color: palette.strongest, percent: 100 }),
        reorder_carry_background: Some(Tint { color: palette.strong, percent: 100 }),
        reorder_indicator: Some(Tint { color: palette.base_text, percent: 100 }),
        frozen_divider: Some(Tint { color: palette.strongest, percent: 100 }),
        gutter_divider: Some(Tint { color: palette.strong, percent: 100 }),
        row_divider: Some(Tint { color: palette.strong, percent: 100 }),
        header_divider: Some(Tint { color: palette.strongest, percent: 100 }),
        header_text: Some(Tint { color: palette.base_text, percent: 100 }),
        group_text: Some(Tint { color: palette.weak_text, percent: 100 }),
        text: None,
        sort_indicator: Some(Tint { color: palette.primary_text, percent: 100 }),
        sort_indicator_inactive: Some(Tint { color: palette.base_text, percent: 35 }),
        sort_hovered_background: Some(Tint { color: palette.strong, percent: 100 }),
        scrollbar_track: Some(Tint { color: palette.weakest, percent: 100 }),
        scrollbar_thumb: Tint { color: palette.strong, percent: 100 },
        scrollbar_thumb_hovered: Tint { color: palette.primary, percent: 100 },
        scrollbar_border: Border { tint: None, width: px(0), radius: px(SOFT) },
    }
}

/// No stripes, no vertical rules -- closer to a modern data grid.
pub open spec fn bare_style<C>(palette: Palette<C>) -> Style<Tint<C>, Tint<C>, Border<C>> {
    Style {
        header_background: None,
        group_background: None,
        row_background: None,
        alternate_row_background: None,
        selected_row_background: Some(Tint { color: palette.primary, percent: 12 }),
        selected_row_border: Some(Tint { color: palette.primary, percent: 100 }),
        hovered_row_background: Some(Tint { color: palette.weakest, percent: 100 }),
        selected_column_background: Some(Tint { color: palette.primary, percent: 12 }),
        selected_cell_background: Some(Tint { color: palette.primary, percent: 20 }),
        selected_cell_border: Some(Tint { color: palette.primary, percent: 100 }),
        border: Border { tint: None, width: px(0), radius: px(0) },
        column_divider: None,
        group_divider: None,
        reorder_carry_background: Some(Tint { color: palette.weak, percent: 100 }),
        reorder_indicator: Some(Tint { color: palette.base_text, percent: 100 }),
        frozen_divider: None,
        gutter_divider: None,
        row_divider: Some(Tint { color: palette.weak, percent: 100 }),
        header_divider: Some(Tint { color: palette.strong, percent: 100 }),
        header_text: Some(Tint { color: palette.base_text, percent: 100 }),
        group_text: Some(Tint { color: palette.weak_text, percent: 100 }),
        text: None,
        sort_indicator: Some(Tint { color: palette.primary, percent: 100 }),
        sort_indicator_inactive: Some(Tint { color: palette.base_text, percent: 30 }),
        sort_hovered_background: Some(Tint { color: palette.weak, percent: 100 }),
        scrollbar_track: None,
        scrollbar_thumb: Tint { color: palette.strong, percent: 100 },
        scrollbar_thumb_hovered: Tint { color: palette.primary, percent: 100 },
        scrollbar_border: Border { tint: None, width: px(0), radius: px(SOFT) },
    }
}

/// The style a table has unless it is given another.
pub fn default<C: Copy>(palette: Palette<C>) -> (style: Style<Tint<C>, Tint<C>, Border<C>>)
    ensures
        style == full_style(palette),
{
    Style {
        header_background: Some(Tint { color: palette.weak, percent: 100 }),
        group_background: Some(Tint { color: palette.weak, percent: 100 }),
        row_background: Some(Tint { color: palette.base, percent: 100 }),
        alternate_row_background: Some(Tint { color: palette.weakest, percent: 100 }),
        selected_row_background: Some(Tint { color: palette.primary, percent: 18 }),
        selected_row_border: Some(Tint { color: palette.primary, percent: 100 }),
        hovered_row_background: Some(Tint { color: palette.weak, percent: 100 }),
        selected_column_background: Some(Tint { color: palette.primary, percent: 18 }),
        selected_cell_background: Some(Tint { color: palette.primary, percent: 28 }),
        selected_cell_border: Some(Tint { color: palette.primary, percent: 100 }),
        border: Border {
            tint: Some(Tint { color: palette.strongest, percent: 100 }),
            width: of_bits(LINE),
            radius: of_bits(ROUND),
        },
        column_divider: Some(Tint { color: palette.strong, percent: 100 }),
        group_divider: Some(Tint { color: palette.strongest, percent: 100 }),
        reorder_carry_background: Some(Tint { color: palette.strong, percent: 100 }),
        reorder_indicator: Some(Tint { color: palette.base_text, percent: 100 }),
        frozen_divider: Some(Tint { color: palette.strongest, percent: 100 }),
        gutter_divider: Some(Tint { color: palette.strong, percent: 100 }),
        row_divider: Some(Tint { color: palette.strong, percent: 100 }),
        header_divider: Some(Tint { color: palette.strongest, percent: 100 }),
        header_text: Some(Tint { color: palette.base_text, percent: 100 }),
        group_text: Some(Tint { color: palette.weak_text, percent: 100 }),
        text: None,
        sort_indicator: Some(Tint { color: palette.primary_text, percent: 100 }),
        sort_indicator_inactive: Some(Tint { color: palette.base_text, percent: 35 }),
        sort_hovered_background: Some(Tint { color: palette.strong, percent: 100 }),
        scrollbar_track: Some(Tint { color: palette.weakest, percent: 100 }),
        scrollbar_thumb: Tint { color: palette.strong, percent: 100 },
        scrollbar_thumb_hovered: Tint { color: palette.primary, percent: 100 },
        scrollbar_border: Border { tint: None, width: of_bits(0), radius: of_bits(SOFT) },
    }
}

/// No stripes, no vertical rules -- closer to a modern data grid.
pub fn minimal<C: Copy>(palette: Palette<C>) -> (style: Style<Tint<C>, Tint<C>, Border<C>>)
    ensures
        style == bare_style(palette),
{
    Style {
        header_background: None,
        group_background: None,
        row_background: None,
        alternate_row_background: None,
        selected_row_background: Some(Tint { color: palette.primary, percent: 12 }),
        selected_row_border: Some(Tint { color: palette.primary, percent: 100 }),
        hovered_row_background: Some(Tint { color: palette.weakest, percent: 100 }),
        selected_column_background: Some(Tint { color: palette.primary, percent: 12 }),
        selected_cell_background: Some(Tint { color: palette.primary, percent: 20 }),
        selected_cell_border: Some(Tint { color: palette.primary, percent: 100 }),
        border: Border { tint: None, width: of_bits(0), radius: of_bits(0) },
        column_divider: None,
        group_divider: None,
        reorder_carry_background: Some(Tint { color: palette.weak, percent: 100 }),
        reorder_indicator: Some(Tint { color: palette.base_text, percent: 100 }),
        frozen_divider: None,
        gutter_divider: None,
        row_divider: Some(Tint { color: palette.weak, percent: 100 }),
        header_divider: Some(Tint { color: palette.strong, percent: 100 }),
        header_text: Some(Tint { color: palette.base_text, percent: 100 }),
        group_text: Some(Tint { color: palette.weak_text, percent: 100 }),
        text: None,
        sort_indicator: Some(Tint { color: palette.primary, percent: 100 }),
        sort_indicator_inactive: Some(Tint { color: palette.base_text, percent: 30 }),
        sort_hovered_background: Some(Tint { color: palette.weak, percent: 100 }),
        scrollbar_track: None,
        scrollbar_thumb: Tint { color: palette.strong, percent: 100 },
        scrollbar_thumb_hovered: Tint { color: palette.primary, percent: 100 },
        scrollbar_border: Border { tint: None, width: of_bits(0), radius: of_bits(SOFT) },
    }
}

fn of_bits(bits: u32) -> (length: Px)
    ensures
        length == px(bits),
{
    Px { bits }
}

/// Every band differs from the rules drawn on top of it, and a group boundary
/// from a column boundary, as long as the palette tells those shades apart.
pub proof fn rules_stand_out_from_their_bands<C>(palette: Palette<C>)
    requires
        palette.strong != palette.weak,
        palette.strong != palette.base,
        palette.strong != palette.weakest,
        palette.strongest != palette.strong,
        palette.strongest != palette.weak,
        palette.strongest != palette.weakest,
        palette.strongest != palette.base,
    ensures
        ({
            let style = full_style(palette);

            &&& style.column_divider != style.header_background
            &&& style.column_divider != style.group_background
            &&& style.column_divider != style.row_background
            &&& style.column_divider != style.alternate_row_background
            &&& style.row_divider != style.row_background
            &&& style.row_divider != style.alternate_row_background
            &&& style.group_divider != style.group_background
            &&& style.group_divider != style.column_divider
            &&& style.header_divider != style.header_background
            &&& style.gutter_divider != style.row_background
            &&& style.frozen_divider != style.column_divider
        }),
{
}

/// The bare style stripes no rows and draws no vertical rule: not between columns,
/// nor between groups, nor along the frozen strip, nor along the gutter.
pub proof fn the_bare_style_has_no_stripes_and_no_vertical_rules<C>(palette: Palette<C>)
    ensures
        bare_style(palette).row_background == bare_style(palette).alternate_row_background,
        bare_style(palette).column_divider is None,
        bare_style(palette).group_divider is None,
        bare_style(palette).frozen_divider is None,
        bare_style(palette).gutter_divider is None,
{
}

/// Rows and columns are two readings of one grid and are washed alike; a
/// selected cell is washed more strongly than either.
pub proof fn a_selected_cell_outweighs_rows_and_columns<C>(palette: Palette<C>)
    ensures
        full_style(palette).selected_row_background == full_style(
            palette,
        ).selected_column_background,
        bare_style(palette).selected_row_background == bare_style(
            palette,
        ).selected_column_background,
        full_style(palette).selected_cell_background->0.percent > full_style(
            palette,
        ).selected_row_background->0.percent,
        bare_style(palette).selected_cell_background->0.percent > bare_style(
            palette,
        ).selected_row_background->0.percent,
{
}

/// Both styles are drawn in shades of the palette as they are, but for the washes of
/// what is selected and the arrows that are not lit, which let the ground through.
/// In both, what is selected is in the accent.
pub proof fn both_styles_use_their_shades<C>(palette: Palette<C>)
    ensures
        ({
            let full = full_style(palette);
            let bare = bare_style(palette);
            let solid = |color: C| Some(Tint { color, percent: 100u8 });

            &&& full.header_background == solid(palette.weak)
            &&& full.group_background == solid(palette.weak)
            &&& full.row_background == solid(palette.base)
            &&& full.alternate_row_background == solid(palette.weakest)
            &&& full.hovered_row_background == solid(palette.weak)
            &&& full.selected_row_border == solid(palette.primary)
            &&& full.selected_cell_border == solid(palette.primary)
            &&& full.column_divider == solid(palette.strong)
            &&& full.row_divider == solid(palette.strong)
            &&& full.gutter_divider == solid(palette.strong)
            &&& full.group_divider == solid(palette.strongest)
            &&& full.frozen_divider == solid(palette.strongest)
            &&& full.header_divider == solid(palette.strongest)
            &&& full.border.tint == solid(palette.strongest)
            &&& full.border.width.bits == 0x3f80_0000 && full.border.radius.bits == 0x40a0_0000
            &&& full.reorder_carry_background == solid(palette.strong)
            &&& full.reorder_indicator == solid(palette.base_text)
            &&& full.header_text == solid(palette.base_text)
            &&& full.group_text == solid(palette.weak_text)
            &&& full.text is None
            &&& full.sort_indicator == solid(palette.primary_text)
            &&& full.sort_hovered_background == solid(palette.strong)
            &&& full.scrollbar_track == solid(palette.weakest)
            &&& Some(full.scrollbar_thumb) == solid(palette.strong)
            &&& Some(full.scrollbar_thumb_hovered) == solid(palette.primary)
            &&& full.selected_row_background == Some(Tint { color: palette.primary, percent: 18 })
            &&& full.selected_cell_background == Some(Tint { color: palette.primary, percent: 28 })
            &&& full.sort_indicator_inactive == Some(Tint { color: palette.base_text, percent: 35 })
            &&& bare.header_background is None && bare.group_background is None
            &&& bare.row_background is None && bare.alternate_row_background is None
            &&& bare.border.tint is None && bare.scrollbar_track is None
            &&& bare.hovered_row_background == solid(palette.weakest)
            &&& bare.selected_row_border == solid(palette.primary)
            &&& bare.selected_cell_border == solid(palette.primary)
            &&& bare.row_divider == solid(palette.weak)
            &&& bare.header_divider == solid(palette.strong)
            &&& bare.reorder_carry_background == solid(palette.weak)
            &&& bare.reorder_indicator == solid(palette.base_text)
            &&& bare.header_text == solid(palette.base_text)
            &&& bare.group_text == solid(palette.weak_text)
            &&& bare.text is None
            &&& bare.sort_indicator == solid(palette.primary)
            &&& bare.sort_hovered_background == solid(palette.weak)
            &&& Some(bare.scrollbar_thumb) == solid(palette.strong)
            &&& Some(bare.scrollbar_thumb_hovered) == solid(palette.primary)
            &&& bare.selected_row_background == Some(Tint { color: palette.primary, percent: 12 })
            &&& bare.selected_cell_background == Some(Tint { color: palette.primary, percent: 20 })
            &&& bare.sort_indicator_inactive == Some(Tint { color: palette.base_text, percent: 30 })
        }),
{
}

} // verus!
