//! The cycle of a column's sort.

use advanced_table::sort::{next, Direction, Sort};

#[test]
fn a_column_cycles_through_three_states_and_back() {
    let a = next(None, 2);
    assert_eq!(a, Some(Sort::ascending(2)));

    let b = next(a, 2);
    assert_eq!(b, Some(Sort::descending(2)));

    // The third click clears it. Without this there is no way back to the
    // order the data arrived in.
    assert_eq!(next(b, 2), None);
}

#[test]
fn switching_columns_restarts_at_ascending() {
    for from in [Sort::ascending(0), Sort::descending(0)] {
        assert_eq!(next(Some(from), 5), Some(Sort::ascending(5)));
    }
}

#[test]
fn reverse_round_trips() {
    for direction in [Direction::Ascending, Direction::Descending] {
        assert_eq!(direction.reverse().reverse(), direction);
    }
}

#[test]
fn the_two_directions_are_each_others_reverse() {
    assert_eq!(Direction::Ascending.reverse(), Direction::Descending);
    assert_eq!(Direction::Descending.reverse(), Direction::Ascending);
    assert_eq!(Sort::descending(4), Sort { column: 4, direction: Direction::Descending });
}
