//! Selection of rows, columns and cells.
//!
//! # Who owns the selection?
//!
//! The application does. The table is handed the current set and reports back
//! what the set *should* become; it never keeps its own copy, so there are no
//! two copies to drift apart when the rows are filtered, sorted or deleted.
//!
//! What *is* the table's own is the **anchor**: the place a Shift-range extends
//! from. It is ephemeral interaction state, meaningless to the application.

use std::collections::BTreeSet;
use vstd::prelude::*;
use vstd::laws_cmp::obeys_cmp;
use vstd::laws_eq::obeys_concrete_eq;
use vstd::std_specs::btree::increasing_seq;
use vstd::std_specs::cmp::OrdSpec;

verus! {

broadcast use vstd::laws_cmp::group_laws_cmp;

#[derive(Debug, Clone, Copy, PartialEq, Eq, Structural)]
pub enum Mode {
    /// Nothing can be selected. Clicks pass through to cells as normal.
    Off,
    /// At most one item at a time.
    Single,
    /// Ctrl/Cmd toggles, Shift extends a range from the anchor.
    Multiple,
}

impl Default for Mode {
    fn default() -> (mode: Self)
        ensures
            mode == Mode::Off,
    {
        Mode::Off
    }
}

/// One cell, by position, in leaf-column coordinates.
#[derive(Debug, Clone, Copy, PartialEq, Eq, PartialOrd, Ord, Structural)]
pub struct CellPosition {
    pub row: usize,
    pub column: usize,
}

impl CellPosition {
    pub fn new(row: usize, column: usize) -> (position: Self)
        ensures
            position == (CellPosition { row, column }),
    {
        CellPosition { row, column }
    }

    /// The cell as its row and column, which is how a set of cells holds it.
    /// The order of the pairs is reading order.
    pub fn pair(self) -> (pair: (usize, usize))
        ensures
            pair == self@,
    {
        (self.row, self.column)
    }
}

impl View for CellPosition {
    type V = (usize, usize);

    open spec fn view(&self) -> (usize, usize) {
        (self.row, self.column)
    }
}

/// What a click should produce.
#[derive(Debug, Clone, PartialEq, Eq)]
pub struct Outcome<T = usize> {
    pub selection: BTreeSet<T>,
    /// The new anchor, for a later Shift-click to extend from.
    pub anchor: Option<T>,
}

/// Every index from one end to the other, both included.
pub open spec fn between(a: usize, b: usize) -> Set<usize> {
    Set::new(|i: usize| (a <= i <= b) || (b <= i <= a))
}

/// Every cell of the rectangle that two corners describe.
pub open spec fn block(a: (usize, usize), b: (usize, usize)) -> Set<(usize, usize)> {
    Set::new(
        |cell: (usize, usize)| between(a.0, b.0).contains(cell.0) && between(a.1, b.1).contains(
            cell.1,
        ),
    )
}

/// Every item between two anchors, for a linear axis -- rows or columns.
pub fn span(a: usize, b: usize) -> (items: BTreeSet<usize>)
    ensures
        items@ == between(a, b),
{
    let low: usize = if a < b { a } else { b };
    let high: usize = if a < b { b } else { a };
    let mut items: BTreeSet<usize> = BTreeSet::new();
    let mut next: usize = low;

    items.insert(next);
    while next < high
        invariant
            low <= next <= high,
            items@ =~= Set::new(|i: usize| low <= i <= next),
        decreases high - next,
    {
        next = next + 1;
        items.insert(next);
    }
    items
}

/// Every cell in the rectangle two corners describe.
///
/// A cell range is genuinely a *rectangle*, not the run of cells you would get
/// by reading left-to-right top-to-bottom between the two corners -- which is
/// why cells cannot reuse [`span`].
pub fn rectangle(a: CellPosition, b: CellPosition) -> (cells: BTreeSet<(usize, usize)>)
    ensures
        cells@ == block(a@, b@),
{
    let top: usize = if a.row < b.row { a.row } else { b.row };
    let bottom: usize = if a.row < b.row { b.row } else { a.row };
    let left: usize = if a.column < b.column { a.column } else { b.column };
    let right: usize = if a.column < b.column { b.column } else { a.column };
    let mut cells: BTreeSet<(usize, usize)> = BTreeSet::new();
    let mut row: usize = top;
    let mut done: bool = false;

    while !done
        invariant
            top <= row <= bottom,
            left <= right,
            done ==> row == bottom,
            cells@ =~= Set::new(
                |cell: (usize, usize)|
                    top <= cell.0 && (cell.0 < row || (done && cell.0 == row)) && left <= cell.1
                        <= right,
            ),
        decreases bottom - row, (if done { 0int } else { 1int }),
    {
        let ghost before = cells@;
        let mut column: usize = left;

        cells.insert((row, column));
        while column < right
            invariant
                left <= column <= right,
                cells@ =~= before.union(
                    Set::new(|cell: (usize, usize)| cell.0 == row && left <= cell.1 <= column),
                ),
            decreases right - column,
        {
            column = column + 1;
            cells.insert((row, column));
        }
        if row < bottom {
            row = row + 1;
        } else {
            done = true;
        }
    }
    cells
}

/// The items with the one at `from` taken out and put back in at `to`.
pub open spec fn reordered<T>(items: Seq<T>, from: int, to: int) -> Seq<T> {
    if from == to || from >= items.len() || to >= items.len() {
        items
    } else {
        items.remove(from).insert(to, items[from])
    }
}

/// Move the item at `from` so that it ends up at index `to`.
///
/// `to` is the index the item should occupy **once it has been taken out** --
/// one less than the gap it was dropped into whenever the column moved right.
pub fn reorder<T>(items: &mut Vec<T>, from: usize, to: usize)
    ensures
        final(items)@ == reordered(old(items)@, from as int, to as int),
{
    if from == to || from >= items.len() || to >= items.len() {
        return;
    }
    let item = items.remove(from);
    items.insert(to, item);
}

/// A rectangle of cells, all four sides included.
#[derive(Debug, Clone, Copy, PartialEq, Eq, Structural)]
pub struct Bounds {
    pub top: usize,
    pub bottom: usize,
    pub left: usize,
    pub right: usize,
}

/// Is the cell inside the rectangle?
pub open spec fn within(cell: (usize, usize), bounds: Bounds) -> bool {
    bounds.top <= cell.0 <= bounds.bottom && bounds.left <= cell.1 <= bounds.right
}

/// Does one of the cells lie on each side of the rectangle?
pub open spec fn touches(cells: Set<(usize, usize)>, bounds: Bounds) -> bool {
    &&& exists|cell: (usize, usize)| #[trigger] cells.contains(cell) && cell.0 == bounds.top
    &&& exists|cell: (usize, usize)| #[trigger] cells.contains(cell) && cell.0 == bounds.bottom
    &&& exists|cell: (usize, usize)| #[trigger] cells.contains(cell) && cell.1 == bounds.left
    &&& exists|cell: (usize, usize)| #[trigger] cells.contains(cell) && cell.1 == bounds.right
}

/// Is this the smallest rectangle that encloses the cells?
pub open spec fn encloses(cells: Set<(usize, usize)>, bounds: Bounds) -> bool {
    &&& touches(cells, bounds)
    &&& forall|cell: (usize, usize)| #[trigger] cells.contains(cell) ==> within(cell, bounds)
}

/// The cell at this place, if it is one of the cells.
pub open spec fn cell_or_hole(cells: Set<(usize, usize)>, row: usize, column: usize) -> Option<
    CellPosition,
> {
    if cells.contains((row, column)) {
        Some(CellPosition { row, column })
    } else {
        None
    }
}

/// One line of the rectangle, left to right.
pub open spec fn grid_line(cells: Set<(usize, usize)>, row: usize, bounds: Bounds) -> Seq<
    Option<CellPosition>,
> {
    Seq::new(
        (bounds.right - bounds.left + 1) as nat,
        |i: int| cell_or_hole(cells, row, (bounds.left + i) as usize),
    )
}

/// The cells laid out as the rectangle with these bounds, in reading order.
pub open spec fn is_grid(
    grid: Seq<Vec<Option<CellPosition>>>,
    cells: Set<(usize, usize)>,
    bounds: Bounds,
) -> bool {
    &&& grid.len() == bounds.bottom - bounds.top + 1
    &&& forall|i: int|
        0 <= i < grid.len() ==> (#[trigger] grid[i])@ == grid_line(
            cells,
            (bounds.top + i) as usize,
            bounds,
        )
}

/// The members of a set, each once.
pub fn members<T: Ord + Copy>(set: &BTreeSet<T>) -> (items: Vec<T>)
    requires
        obeys_cmp::<T>(),
    ensures
        items@.to_set() == set@,
        items@.no_duplicates(),
{
    let mut items: Vec<T> = Vec::new();

    for item in it: set.iter()
        invariant
            it.seq().unref().to_set() == set@,
            it.seq().no_duplicates(),
            obeys_cmp::<T>(),
            items@ == it.seq().unref().take(it.index()),
                it.index() == it.seq().len() ==> items@.to_set() == set@ && items@.no_duplicates(),
    {
        items.push(*item);
        assert(items@ =~= it.seq().unref().take(it.index() + 1));
        assert(it.index() + 1 == it.seq().len() ==> items@ =~= it.seq().unref());
    }
    items
}

/// The smallest rectangle that encloses the cells, if there are any.
fn bounds(selection: &BTreeSet<(usize, usize)>) -> (bounds: Option<Bounds>)
    ensures
        bounds is None <==> selection@.is_empty(),
        bounds matches Some(b) ==> encloses(selection@, b),
{
    let cells = members(selection);

    if cells.len() == 0 {
        assert(selection@ =~= Set::empty());
        return None;
    }
    let ghost seen = cells@;
    let mut b = Bounds {
        top: cells[0].0,
        bottom: cells[0].0,
        left: cells[0].1,
        right: cells[0].1,
    };
    assert(seen.take(1).to_set().contains(seen[0])) by {
        assert(seen.take(1)[0] == seen[0]);
    }
    for i in 1..cells.len()
        invariant
            cells@ == seen,
            1 <= cells@.len(),
            encloses(seen.take(i as int).to_set(), b),
    {
        let (row, column) = cells[i];
        let ghost longer = seen.take(i + 1);
        let ghost before = seen.take(i as int).to_set();
        let ghost after = longer.to_set();

        proof {
            assert forall|cell: (usize, usize)| before.contains(cell) implies after.contains(cell) by {
                let at = choose|k: int| 0 <= k < i && seen.take(i as int)[k] == cell;
                assert(longer[at] == cell);
            }
            assert(longer[i as int] == seen[i as int]);
            assert(after.contains(seen[i as int]));
            assert forall|cell: (usize, usize)| after.contains(cell) implies before.contains(cell)
                || cell == seen[i as int] by {
                let at = choose|k: int| 0 <= k < i + 1 && longer[k] == cell;
                if at < i {
                    assert(seen.take(i as int)[at] == cell);
                }
            }
        }
        if row < b.top {
            b.top = row;
        }
        if row > b.bottom {
            b.bottom = row;
        }
        if column < b.left {
            b.left = column;
        }
        if column > b.right {
            b.right = column;
        }
    }
    assert(seen.take(seen.len() as int) =~= seen);
    assert(seen.to_set().contains(seen[0]));
    Some(b)
}

/// Lay a cell selection out as the rectangle enclosing it, in reading order.
///
/// Spreadsheets exchange a **rectangle**. A selection built with Ctrl-clicks is
/// not necessarily rectangular, so the bounding box is squared off and the
/// positions that were never selected come back as `None`.
pub fn grid(selection: &BTreeSet<(usize, usize)>) -> (grid: Vec<Vec<Option<CellPosition>>>)
    ensures
        selection@.is_empty() ==> grid@.len() == 0,
        !selection@.is_empty() ==> exists|b: Bounds| #[trigger]
            encloses(selection@, b) && is_grid(grid@, selection@, b),
{
    let mut lines: Vec<Vec<Option<CellPosition>>> = Vec::new();

    if let Some(b) = bounds(selection) {
        let mut row: usize = b.top;

        lines.push(line(selection, row, b));
        while row < b.bottom
            invariant
                b.top <= row <= b.bottom,
                b.left <= b.right,
                lines@.len() == row - b.top + 1,
                forall|i: int|
                    0 <= i < lines@.len() ==> (#[trigger] lines@[i])@ == grid_line(
                        selection@,
                        (b.top + i) as usize,
                        b,
                    ),
            decreases b.bottom - row,
        {
            row = row + 1;
            lines.push(line(selection, row, b));
        }
        proof {
            assert(encloses(selection@, b) && is_grid(lines@, selection@, b));
        }
    }
    lines
}

/// One line of a selection's rectangle.
fn line(selection: &BTreeSet<(usize, usize)>, row: usize, b: Bounds) -> (line: Vec<
    Option<CellPosition>,
>)
    requires
        b.left <= b.right,
    ensures
        line@ == grid_line(selection@, row, b),
{
    let mut line: Vec<Option<CellPosition>> = Vec::new();
    let mut column: usize = b.left;

    line.push(cell_in(selection, row, column));
    while column < b.right
        invariant
            b.left <= column <= b.right,
            line@ =~= grid_line(selection@, row, b).take(column - b.left + 1),
        decreases b.right - column,
    {
        column = column + 1;
        line.push(cell_in(selection, row, column));
    }
    line
}

fn cell_in(selection: &BTreeSet<(usize, usize)>, row: usize, column: usize) -> (cell: Option<
    CellPosition,
>)
    ensures
        cell == cell_or_hole(selection@, row, column),
{
    if selection.contains(&(row, column)) {
        Some(CellPosition::new(row, column))
    } else {
        None
    }
}

/// Where a Shift-range starts: at the anchor, or at the target itself without one.
pub open spec fn origin<T>(anchor: Option<T>, target: T) -> T {
    match anchor {
        Some(anchor) => anchor,
        None => target,
    }
}

/// What a click asks the selection and the anchor to become. `range` is what an
/// extend covers between its [`origin`] and the target.
pub open spec fn clicked<T>(
    mode: Mode,
    current: Set<T>,
    anchor: Option<T>,
    target: T,
    toggle: bool,
    extend: bool,
    range: Set<T>,
) -> (Set<T>, Option<T>) {
    match mode {
        Mode::Off => (current, anchor),
        Mode::Single => (set![target], Some(target)),
        Mode::Multiple => if extend {
            (if toggle { current.union(range) } else { range }, anchor)
        } else if toggle {
            (
                if current.contains(target) { current.remove(target) } else { current.insert(target) },
                Some(target),
            )
        } else {
            (set![target], Some(target))
        },
    }
}

/// Does the answer say exactly what has to change to get to `wanted`?
/// Nothing is reported when there is nothing to change.
pub open spec fn reports<T>(
    outcome: Option<Outcome<T>>,
    current: Set<T>,
    anchor: Option<T>,
    wanted: (Set<T>, Option<T>),
) -> bool {
    match outcome {
        Some(outcome) => {
            &&& (outcome.selection@, outcome.anchor) == wanted
            &&& wanted != (current, anchor)
        },
        None => wanted == (current, anchor),
    }
}

/// The set that holds one item.
pub fn only<T: Ord + Copy>(item: T) -> (set: BTreeSet<T>)
    requires
        obeys_cmp::<T>(),
    ensures
        set@ == set![item],
{
    let mut set: BTreeSet<T> = BTreeSet::new();

    set.insert(item);
    set
}

/// Everything that is in either set.
pub fn union<T: Ord + Copy>(a: &BTreeSet<T>, b: &BTreeSet<T>) -> (both: BTreeSet<T>)
    requires
        obeys_cmp::<T>(),
    ensures
        both@ == a@.union(b@),
{
    let mut both = a.clone();
    let items = members(b);
    let ghost all = items@;

    for item in it: items
        invariant
            obeys_cmp::<T>(),
            it.seq() == all,
            forall|x: T| #[trigger]
                both@.contains(x) <==> a@.contains(x) || exists|j: int|
                    0 <= j < it.index() && all[j] == x,
    {
        both.insert(item);
    }
    both
}

/// Is everything in the first set also in the second?
fn contained<T: Ord + Copy>(a: &BTreeSet<T>, b: &BTreeSet<T>) -> (contained: bool)
    requires
        obeys_cmp::<T>(),
    ensures
        contained == a@.subset_of(b@),
{
    let items = members(a);
    let ghost all = items@;

    for item in it: items
        invariant
            obeys_cmp::<T>(),
            it.seq() == all,
            all.to_set() == a@,
            forall|j: int| 0 <= j < it.index() ==> b@.contains(#[trigger] all[j]),
    {
        if !b.contains(&item) {
            assert(a@.contains(all[it.index()]));
            return false;
        }
    }
    true
}

/// Do the two sets hold the same items?
pub fn same<T: Ord + Copy>(a: &BTreeSet<T>, b: &BTreeSet<T>) -> (same: bool)
    requires
        obeys_cmp::<T>(),
    ensures
        same == (a@ == b@),
{
    let same = contained(a, b) && contained(b, a);

    assert(same ==> a@ =~= b@);
    same
}

/// Resolve a click into a new selection.
///
/// Returns `None` when nothing should change, so the caller can skip emitting
/// a message rather than spamming identical updates.
///
/// `span` is what an extend (Shift) covers between the anchor and the target.
/// It is the only thing that differs between rows, columns and cells, so all
/// three share this one implementation and cannot drift apart in behaviour.
pub fn resolve<T: Ord + Copy, F: Fn(T, T) -> BTreeSet<T>>(
    mode: Mode,
    current: &BTreeSet<T>,
    anchor: Option<T>,
    target: T,
    toggle: bool,
    extend: bool,
    span: F,
) -> (outcome: Option<Outcome<T>>)
    requires
        obeys_cmp::<T>(),
        obeys_concrete_eq::<T>(),
        mode == Mode::Multiple && extend ==> call_requires(span, (origin(anchor, target), target)),
    ensures
        exists|range: BTreeSet<T>|
            {
                &&& mode == Mode::Multiple && extend ==> call_ensures(
                    span,
                    (origin(anchor, target), target),
                    range,
                )
                &&& #[trigger] reports(
                    outcome,
                    current@,
                    anchor,
                    clicked(mode, current@, anchor, target, toggle, extend, range@),
                )
            },
{
    let ghost mut covered: BTreeSet<T> = *current;
    let outcome = match mode {
        Mode::Off => {
            assert(reports(
                None::<Outcome<T>>,
                current@,
                anchor,
                clicked(mode, current@, anchor, target, toggle, extend, covered@),
            ));
            return None;
        },
        Mode::Single => Outcome { selection: only(target), anchor: Some(target) },
        Mode::Multiple => {
            if extend {
                // Without an anchor there is nothing to extend from, so this
                // degrades to a plain click.
                let start = match anchor {
                    Some(anchor) => anchor,
                    None => target,
                };
                let range = span(start, target);

                proof {
                    covered = range;
                }
                // The anchor is kept: repeated Shift-clicks all measure from
                // the same origin instead of walking it forward.
                if toggle {
                    Outcome { selection: union(current, &range), anchor }
                } else {
                    Outcome { selection: range, anchor }
                }
            } else if toggle {
                let mut selection = current.clone();

                if !selection.remove(&target) {
                    selection.insert(target);
                }
                Outcome { selection, anchor: Some(target) }
            } else {
                Outcome { selection: only(target), anchor: Some(target) }
            }
        },
    };

    let unmoved = match (outcome.anchor, anchor) {
        (Some(a), Some(b)) => a == b,
        (None, None) => true,
        _ => false,
    };

    proof {
        reveal(obeys_concrete_eq);
        assert((outcome.selection@, outcome.anchor) == clicked(
            mode,
            current@,
            anchor,
            target,
            toggle,
            extend,
            covered@,
        ));
    }
    if unmoved && same(&outcome.selection, current) {
        assert(reports(
            None::<Outcome<T>>,
            current@,
            anchor,
            clicked(mode, current@, anchor, target, toggle, extend, covered@),
        ));
        None
    } else {
        assert(reports(
            Some(outcome),
            current@,
            anchor,
            clicked(mode, current@, anchor, target, toggle, extend, covered@),
        ));
        Some(outcome)
    }
}

/// [`resolve`] for a linear axis -- rows or columns.
pub fn apply(
    mode: Mode,
    current: &BTreeSet<usize>,
    anchor: Option<usize>,
    row: usize,
    toggle: bool,
    extend: bool,
) -> (outcome: Option<Outcome>)
    ensures
        reports(
            outcome,
            current@,
            anchor,
            clicked(
                mode,
                current@,
                anchor,
                row,
                toggle,
                extend,
                between(origin(anchor, row), row),
            ),
        ),
{
    broadcast use vstd::laws_eq::group_laws_eq;

    resolve(mode, current, anchor, row, toggle, extend, span)
}

/// [`resolve`] for cells, where an extend covers a rectangle.
pub fn apply_cells(
    mode: Mode,
    current: &BTreeSet<(usize, usize)>,
    anchor: Option<CellPosition>,
    target: CellPosition,
    toggle: bool,
    extend: bool,
) -> (outcome: Option<Outcome<(usize, usize)>>)
    ensures
        reports(
            outcome,
            current@,
            pair_of(anchor),
            clicked(
                mode,
                current@,
                pair_of(anchor),
                target@,
                toggle,
                extend,
                block(origin(pair_of(anchor), target@), target@),
            ),
        ),
{
    broadcast use vstd::laws_eq::group_laws_eq;

    let from = match anchor {
        Some(anchor) => Some(anchor.pair()),
        None => None,
    };
    let span = |a: (usize, usize), b: (usize, usize)| -> (cells: BTreeSet<(usize, usize)>)
        ensures
            cells@ == block(a, b),
        { rectangle(CellPosition::new(a.0, a.1), CellPosition::new(b.0, b.1)) };

    assert(obeys_concrete_eq::<(usize, usize)>()) by {
        reveal(obeys_concrete_eq);
    }
    resolve(mode, current, from, target.pair(), toggle, extend, span)
}

/// The anchor as a set of cells would hold it.
pub open spec fn pair_of(anchor: Option<CellPosition>) -> Option<(usize, usize)> {
    match anchor {
        Some(anchor) => Some(anchor@),
        None => None,
    }
}

/// Every number is smaller than all that follow it.
pub open spec fn increasing(items: Seq<usize>) -> bool {
    forall|i: int, j: int|
        #![trigger items[i], items[j]]
        0 <= i < j < items.len() ==> items[i] < items[j]
}

proof fn references_are_ordered()
    ensures
        obeys_cmp::<&usize>(),
{
    reveal(vstd::laws_eq::obeys_eq_spec_properties);
    reveal(vstd::laws_cmp::obeys_partial_cmp_spec_properties);
    reveal(vstd::laws_cmp::obeys_cmp_partial_ord);
    reveal(vstd::laws_cmp::obeys_cmp_ord);
}

/// The members of a set of numbers, from the smallest up.
pub fn in_order(set: &BTreeSet<usize>) -> (items: Vec<usize>)
    ensures
        items@ == listing(set@),
        items@.to_set() == set@,
        increasing(items@),
{
    let mut items: Vec<usize> = Vec::new();

    proof {
        references_are_ordered();
    }
    for item in it: set.iter()
        invariant
            it.seq().unref().to_set() == set@,
            increasing_seq(it.seq()),
            obeys_cmp::<&usize>(),
            items@ == it.seq().unref().take(it.index()),
            increasing(items@),
            it.index() == it.seq().len() ==> items@.to_set() == set@,
    {
        items.push(*item);
        assert(items@ =~= it.seq().unref().take(it.index() + 1));
        assert(it.index() + 1 == it.seq().len() ==> items@ =~= it.seq().unref());
        assert forall|i: int| 0 <= i < it.index() implies #[trigger] items@[i]
            < items@[it.index()] by {
            assert(OrdSpec::cmp_spec(&it.seq()[i], &it.seq()[it.index()]) is Less);
            assert(*it.seq()[i] == items@[i]);
            assert(*it.seq()[it.index()] == items@[it.index()]);
        }
    }
    proof {
        the_listing_is(items@, set@);
    }
    items
}

/// The members of a set of numbers, from the smallest up.
pub open spec fn listing(set: Set<usize>) -> Seq<usize> {
    choose|items: Seq<usize>| increasing(items) && #[trigger] items.to_set() == set
}

/// Numbers that run up are determined by the set of them.
pub(crate) proof fn the_listing_is(items: Seq<usize>, set: Set<usize>)
    requires
        increasing(items),
        items.to_set() == set,
    ensures
        listing(set) == items,
        set.finite(),
        set.len() == items.len(),
{
    let other = listing(set);

    assert(increasing(other) && other.to_set() == set);
    one_listing(items, other);
    increasing_is_distinct(items);
    items.unique_seq_to_set();
    vstd::seq_lib::seq_to_set_is_finite(items);
}

proof fn increasing_is_distinct(items: Seq<usize>)
    requires
        increasing(items),
    ensures
        items.no_duplicates(),
{
}

proof fn one_listing(a: Seq<usize>, b: Seq<usize>)
    requires
        increasing(a),
        increasing(b),
        a.to_set() == b.to_set(),
    ensures
        a == b,
    decreases a.len(),
{
    if a.len() == 0 {
        if b.len() > 0 {
            assert(b.to_set().contains(b[0]));
            assert(a.to_set().contains(b[0]));
        }
        assert(a =~= b);
    } else {
        assert(a.to_set().contains(a.last()));
        assert(b.to_set().contains(a.last()));
        let at = choose|at: int| 0 <= at < b.len() && b[at] == a.last();
        assert(b.to_set().contains(b.last()));
        assert(a.to_set().contains(b.last()));
        let back = choose|back: int| 0 <= back < a.len() && a[back] == b.last();
        assert(a[back] <= a.last() && b[at] <= b.last());
        assert(a.last() == b.last());
        let x = a.drop_last();
        let y = b.drop_last();

        assert(x.to_set() =~= y.to_set()) by {
            assert forall|item: usize| x.to_set().contains(item) implies y.to_set().contains(
                item,
            ) by {
                let i = choose|i: int| 0 <= i < x.len() && x[i] == item;
                assert(a[i] == item && a[i] < a.last());
                assert(a.to_set().contains(item));
                assert(b.to_set().contains(item));
                let j = choose|j: int| 0 <= j < b.len() && b[j] == item;
                assert(y[j] == item);
            }
            assert forall|item: usize| y.to_set().contains(item) implies x.to_set().contains(
                item,
            ) by {
                let i = choose|i: int| 0 <= i < y.len() && y[i] == item;
                assert(b[i] == item && b[i] < b.last());
                assert(b.to_set().contains(item));
                assert(a.to_set().contains(item));
                let j = choose|j: int| 0 <= j < a.len() && a[j] == item;
                assert(x[j] == item);
            }
        }
        one_listing(x, y);
        assert(a =~= x.push(a.last()));
        assert(b =~= y.push(b.last()));
    }
}

} // verus!
