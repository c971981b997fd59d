//! What the table does about an event.
//!
//! The widget around the table finds out what lies under the pointer and hands
//! it in as [`Hits`]; what comes back is what to tell the application, and
//! whether to redraw. Everything in between is decided here: which selection a
//! click means, what a drag sweeps out, where a carried column lands.
//!
//! Handlers run in a fixed order and stop at the first that claims the event.

use std::collections::BTreeSet;
use vstd::prelude::*;
use crate::keys::Key;
use crate::px::{zero, Point, Px};
use crate::selection::{origin, CellPosition};
use crate::sizing::Widths;
use crate::sort::Sort;

verus! {

/// Bit pattern of 4: how far the pointer must travel before a press on a header
/// becomes a reorder rather than a click that selects the column.
pub const REORDER_THRESHOLD: u32 = 0x4080_0000;

#[derive(Debug, Clone, Copy, PartialEq, Eq, Structural)]
pub enum Button {
    Left,
    Right,
    Other,
}

/// An event, as far as the table tells events apart.
#[derive(Debug)]
pub enum Input {
    Pressed(Button),
    Released(Button),
    Moved,
    Wheel,
    /// Any other event of the mouse.
    Mouse,
    FingerPressed,
    FingerMoved,
    FingerLifted,
    FingerLost,
    ModifiersChanged(u32),
    KeyPressed { key: Key, modifiers: u32 },
    Other,
}

/// Where the pointer is, in table terms.
#[derive(Debug, Clone, Copy, PartialEq)]
pub struct Hits {
    /// Where it is on screen, if it is anywhere.
    pub pointer: Option<Point>,
    pub over_table: bool,
    pub over_body: bool,
    /// Body row under it.
    pub row: Option<usize>,
    /// Leaf column under it, or `None` in a gutter.
    pub column: Option<usize>,
    /// Column whose right edge can be grabbed there.
    pub edge: Option<usize>,
    /// Index of the header cell under it.
    pub header_cell: Option<usize>,
    /// How far into the column of that cell it is.
    pub grip: Px,
    /// Column whose sort control is under it.
    pub control: Option<usize>,
}

/// Where a click landed, in table terms rather than pixels.
///
/// Both coordinates are optional because both can genuinely miss: the header
/// has no row, and the gutters belong to no column.
#[derive(Debug, Clone, Copy, PartialEq)]
pub struct Click {
    /// Body row, or `None` in the header.
    pub row: Option<usize>,
    /// Leaf column, or `None` in a gutter.
    pub column: Option<usize>,
    /// Screen position, for placing a menu at the pointer.
    pub position: Point,
}

/// Something to tell the application.
#[derive(Debug)]
pub enum Report {
    /// What the selection of rows should become.
    Rows(BTreeSet<usize>),
    /// What the selection of columns should become.
    Columns(BTreeSet<usize>),
    /// What the selection of cells should become.
    Cells(BTreeSet<(usize, usize)>),
    /// What the sort should become.
    Sort(Option<Sort>),
    /// Take the column at `from` out and put it back in at `to`.
    Reorder { from: usize, to: usize },
    RightClick(Click),
    Copy,
}

/// A report, with its sets as mathematical ones.
pub enum Notice {
    Rows(Set<usize>),
    Columns(Set<usize>),
    Cells(Set<(usize, usize)>),
    Sort(Option<Sort>),
    Reorder { from: usize, to: usize },
    RightClick(Click),
    Copy,
}

impl View for Report {
    type V = Notice;

    open spec fn view(&self) -> Notice {
        match *self {
            Report::Rows(rows) => Notice::Rows(rows@),
            Report::Columns(columns) => Notice::Columns(columns@),
            Report::Cells(cells) => Notice::Cells(cells@),
            Report::Sort(sort) => Notice::Sort(sort),
            Report::Reorder { from, to } => Notice::Reorder { from, to },
            Report::RightClick(click) => Notice::RightClick(click),
            Report::Copy => Notice::Copy,
        }
    }
}

/// What the keyboard focus moved to, to be scrolled into view.
#[derive(Debug, Clone, Copy, PartialEq, Eq, Structural)]
pub enum Reveal {
    Row(usize),
    Cell(CellPosition),
}

/// What comes of an event.
#[derive(Debug)]
pub struct Shell {
    pub reports: Vec<Report>,
    /// Draw the table anew.
    pub redraw: bool,
    /// Lay the table out anew.
    pub relayout: bool,
    /// Nobody else is to act on the event.
    pub captured: bool,
    pub reveal: Option<Reveal>,
}

/// What came of an event, with the reports as mathematical ones.
pub struct Outcry {
    pub said: Seq<Notice>,
    pub redraw: bool,
    pub relayout: bool,
    pub captured: bool,
    pub reveal: Option<Reveal>,
}

impl View for Shell {
    type V = Outcry;

    open spec fn view(&self) -> Outcry {
        Outcry {
            said: self.reports@.map_values(|report: Report| report@),
            redraw: self.redraw,
            relayout: self.relayout,
            captured: self.captured,
            reveal: self.reveal,
        }
    }
}

/// One more report.
pub open spec fn say(shell: Outcry, notice: Notice) -> Outcry {
    Outcry { said: shell.said.push(notice), ..shell }
}

/// One more report, if somebody listens for it.
pub open spec fn say_if(heard: bool, shell: Outcry, notice: Notice) -> Outcry {
    if heard {
        say(shell, notice)
    } else {
        shell
    }
}

/// The event is claimed and the table drawn anew.
pub open spec fn claim(shell: Outcry) -> Outcry {
    Outcry { captured: true, redraw: true, ..shell }
}

impl Shell {
    /// Nothing has come of the event yet.
    pub fn new() -> (shell: Self)
        ensures
            shell@ == (Outcry {
                said: Seq::<Notice>::empty(),
                redraw: false,
                relayout: false,
                captured: false,
                reveal: None::<Reveal>,
            }),
    {
        let shell = Shell {
            reports: Vec::new(),
            redraw: false,
            relayout: false,
            captured: false,
            reveal: None,
        };

        assert(shell@.said =~= Seq::<Notice>::empty());
        shell
    }

    pub fn publish(&mut self, report: Report)
        ensures
            final(self)@ == say(old(self)@, report@),
    {
        self.reports.push(report);
        assert(self@.said =~= old(self)@.said.push(report@));
    }

    pub fn claim(&mut self)
        ensures
            final(self)@ == claim(old(self)@),
    {
        self.captured = true;
        self.redraw = true;
    }
}

/// A drag-select in progress, with the selection to union each sweep onto.
///
/// Empty for a plain drag, which makes the sweep a straight replace. For a
/// Ctrl-drag it is the selection as it stood just after the press: a
/// *snapshot*, since unioning against the live selection could only ever grow.
#[derive(Debug)]
pub enum Drag {
    Cells(BTreeSet<(usize, usize)>),
    Rows(BTreeSet<usize>),
    Columns(BTreeSet<usize>),
}

/// A drag, with its base as a mathematical set.
pub enum Sweep {
    Cells(Set<(usize, usize)>),
    Rows(Set<usize>),
    Columns(Set<usize>),
}

impl View for Drag {
    type V = Sweep;

    open spec fn view(&self) -> Sweep {
        match *self {
            Drag::Cells(base) => Sweep::Cells(base@),
            Drag::Rows(base) => Sweep::Rows(base@),
            Drag::Columns(base) => Sweep::Columns(base@),
        }
    }
}

/// A column being dragged to a new position.
#[derive(Debug)]
pub struct ReorderDrag {
    pub column: usize,
    /// Pointer x at the press, to measure the threshold from.
    pub origin: Px,
    /// How far into the column the press landed, so the carried chip sits under
    /// the pointer where it was picked up.
    pub grab: Px,
    /// Boundaries this column is allowed to land on.
    pub slots: Vec<usize>,
    /// The boundary currently under the pointer. `None` until the drag clears
    /// the threshold.
    pub target: Option<usize>,
}

/// A carried column, with its slots as a mathematical sequence.
pub struct Carry {
    pub column: usize,
    pub origin: Px,
    pub grab: Px,
    pub slots: Seq<usize>,
    pub target: Option<usize>,
}

impl View for ReorderDrag {
    type V = Carry;

    open spec fn view(&self) -> Carry {
        Carry {
            column: self.column,
            origin: self.origin,
            grab: self.grab,
            slots: self.slots@,
            target: self.target,
        }
    }
}

/// A column being resized, plus where the drag started and how wide the column
/// was at that moment.
#[derive(Debug, Clone, Copy, PartialEq)]
pub struct Resize {
    pub column: usize,
    pub origin_x: Px,
    pub origin_width: Px,
}

/// What the table remembers between events. Ephemeral: nothing breaks if it is
/// lost.
#[derive(Debug)]
pub struct State {
    /// Modifier keys held down.
    pub modifiers: u32,
    /// Row, column and cell a Shift-range extends from.
    pub anchor: Option<usize>,
    pub column_anchor: Option<usize>,
    pub cell_anchor: Option<CellPosition>,
    /// The moving end of the selection. Distinct from the anchor: a Shift+arrow
    /// steps the *focus* one place and re-spans from the anchor.
    pub row_focus: Option<usize>,
    pub column_focus: Option<usize>,
    pub cell_focus: Option<CellPosition>,
    pub hovered: Option<usize>,
    /// Leaf column whose sort control the pointer is over.
    pub hovered_sort: Option<usize>,
    pub drag: Option<Drag>,
    pub reorder: Option<ReorderDrag>,
    /// Whether the last click landed inside the table.
    pub focused: bool,
    pub resizing: Option<Resize>,
    /// Grab point within the thumb while dragging, per axis.
    pub y_grab: Option<Px>,
    pub x_grab: Option<Px>,
    /// Scroll position in content pixels.
    pub offset: Point,
    pub widths: Widths,
}

/// The state, with its collections as mathematical ones.
pub struct Model {
    pub modifiers: u32,
    pub anchor: Option<usize>,
    pub column_anchor: Option<usize>,
    pub cell_anchor: Option<CellPosition>,
    pub row_focus: Option<usize>,
    pub column_focus: Option<usize>,
    pub cell_focus: Option<CellPosition>,
    pub hovered: Option<usize>,
    pub hovered_sort: Option<usize>,
    pub drag: Option<Sweep>,
    pub reorder: Option<Carry>,
    pub focused: bool,
    pub resizing: Option<Resize>,
    pub y_grab: Option<Px>,
    pub x_grab: Option<Px>,
    pub offset: Point,
    pub overrides: Seq<Option<Px>>,
    pub measured: Seq<Px>,
    pub measured_rows: usize,
}

impl View for State {
    type V = Model;

    open spec fn view(&self) -> Model {
        Model {
            modifiers: self.modifiers,
            anchor: self.anchor,
            column_anchor: self.column_anchor,
            cell_anchor: self.cell_anchor,
            row_focus: self.row_focus,
            column_focus: self.column_focus,
            cell_focus: self.cell_focus,
            hovered: self.hovered,
            hovered_sort: self.hovered_sort,
            drag: match self.drag {
                Some(drag) => Some(drag@),
                None => None,
            },
            reorder: match self.reorder {
                Some(reorder) => Some(reorder@),
                None => None,
            },
            focused: self.focused,
            resizing: self.resizing,
            y_grab: self.y_grab,
            x_grab: self.x_grab,
            offset: self.offset,
            overrides: self.widths.overrides@,
            measured: self.widths.measured@,
            measured_rows: self.widths.measured_rows,
        }
    }
}

impl Default for State {
    fn default() -> (state: Self)
        ensures
            state@ == (Model {
                modifiers: 0,
                anchor: None,
                column_anchor: None,
                cell_anchor: None,
                row_focus: None,
                column_focus: None,
                cell_focus: None,
                hovered: None,
                hovered_sort: None,
                drag: None,
                reorder: None,
                focused: false,
                resizing: None,
                y_grab: None,
                x_grab: None,
                offset: (Point { x: zero(), y: zero() }),
                overrides: Seq::empty(),
                measured: Seq::empty(),
                measured_rows: 0,
            }),
    {
        let state = State {
            modifiers: 0,
            anchor: None,
            column_anchor: None,
            cell_anchor: None,
            row_focus: None,
            column_focus: None,
            cell_focus: None,
            hovered: None,
            hovered_sort: None,
            drag: None,
            reorder: None,
            focused: false,
            resizing: None,
            y_grab: None,
            x_grab: None,
            offset: Point { x: Px::zero(), y: Px::zero() },
            widths: Widths::default(),
        };

        assert(state.widths.overrides@ =~= Seq::empty());
        assert(state.widths.measured@ =~= Seq::empty());
        state
    }
}

/// The state and what came of the event so far, and whether a handler has
/// claimed it.
pub struct Effect {
    pub state: Model,
    pub shell: Outcry,
    pub done: bool,
}

/// Whether an event has to reach every row, or only the ones on screen.
///
/// Positional events are culled to the viewport: a cell the pointer cannot be
/// over has nothing to do with them. Everything else is delivered in full: a
/// cell scrolled out of view can still hold **keyboard focus**, and a child
/// that captured a **press** has to see the matching release.
pub open spec fn is_for_every_row(input: Input) -> bool {
    match input {
        Input::Released(_) | Input::FingerLifted | Input::FingerLost => true,
        Input::Pressed(_) | Input::Moved | Input::Wheel | Input::Mouse => false,
        Input::FingerPressed | Input::FingerMoved => false,
        _ => true,
    }
}

/// Whether an event has to reach every row, or only the ones on screen.
pub fn reaches_every_row(input: &Input) -> (everywhere: bool)
    ensures
        everywhere == is_for_every_row(*input),
{
    match input {
        Input::Released(_) => true,
        Input::FingerLifted => true,
        Input::FingerLost => true,
        Input::Pressed(_) => false,
        Input::Moved => false,
        Input::Wheel => false,
        Input::Mouse => false,
        Input::FingerPressed => false,
        Input::FingerMoved => false,
        _ => true,
    }
}

} // verus!
