//! Sort state.
//!
//! The table renders the sort it is handed and reports what the sort should
//! become. It never reorders anything itself: it cannot compare values it only
//! ever sees as drawn elements.

use vstd::prelude::*;

verus! {

/// Which way a sorted column runs.
#[derive(Debug, Clone, Copy, PartialEq, Eq, Structural)]
pub enum Direction {
    Ascending,
    Descending,
}

/// The opposite direction.
pub open spec fn reversed(direction: Direction) -> Direction {
    match direction {
        Direction::Ascending => Direction::Descending,
        Direction::Descending => Direction::Ascending,
    }
}

impl Direction {
    pub fn reverse(self) -> (result: Self)
        ensures
            result == reversed(self),
    {
        match self {
            Direction::Ascending => Direction::Descending,
            Direction::Descending => Direction::Ascending,
        }
    }
}

/// The column currently sorted, and which way.
#[derive(Debug, Clone, Copy, PartialEq, Eq, Structural)]
pub struct Sort {
    /// Leaf column index.
    pub column: usize,
    pub direction: Direction,
}

impl Sort {
    pub fn ascending(column: usize) -> (result: Self)
        ensures
            result == (Sort { column, direction: Direction::Ascending }),
    {
        Sort { column, direction: Direction::Ascending }
    }

    pub fn descending(column: usize) -> (result: Self)
        ensures
            result == (Sort { column, direction: Direction::Descending }),
    {
        Sort { column, direction: Direction::Descending }
    }
}

/// The sort that activating `column`'s control leads to.
///
/// A column runs through three states: ascending, descending, unsorted. Any
/// other starting point, including a sort on another column, leads to
/// ascending.
pub open spec fn next_sort(current: Option<Sort>, column: usize) -> Option<Sort> {
    if current == Some(Sort { column, direction: Direction::Ascending }) {
        Some(Sort { column, direction: Direction::Descending })
    } else if current == Some(Sort { column, direction: Direction::Descending }) {
        None
    } else {
        Some(Sort { column, direction: Direction::Ascending })
    }
}

/// What activating `column`'s sort control should produce.
///
/// Three states, not two: without the third there is no way back to the order
/// the data arrived in. Moving to a different column always restarts at
/// ascending rather than carrying the previous direction over.
pub fn next(current: Option<Sort>, column: usize) -> (result: Option<Sort>)
    ensures
        result == next_sort(current, column),
{
    match current {
        Some(sort) if sort.column == column => match sort.direction {
            Direction::Ascending => Some(Sort::descending(column)),
            Direction::Descending => None,
        },
        _ => Some(Sort::ascending(column)),
    }
}

/// Reversing a direction twice gives it back.
pub proof fn reverse_is_an_involution(direction: Direction)
    ensures
        reversed(reversed(direction)) == direction,
        reversed(direction) != direction,
{
}

/// From unsorted, three activations of one column's control visit ascending,
/// then descending, and come back to unsorted.
pub proof fn a_column_cycles_in_three(column: usize)
    ensures
        next_sort(None, column) == Some(Sort { column, direction: Direction::Ascending }),
        next_sort(next_sort(None, column), column) == Some(
            Sort { column, direction: Direction::Descending },
        ),
        next_sort(next_sort(next_sort(None, column), column), column) is None,
{
}

/// Activating the control of a column that is not the sorted one sorts that
/// column ascending, whatever the sort was.
pub proof fn switching_restarts_at_ascending(sort: Sort, column: usize)
    requires
        sort.column != column,
    ensures
        next_sort(Some(sort), column) == Some(Sort { column, direction: Direction::Ascending }),
{
}

} // verus!
