//! The records that the demonstration shows, and how they are sorted.

use vstd::prelude::*;
use crate::sort::Direction;
use crate::text::{before, comes_before, one_text_comes_first, the_dictionary_is_in_order};

verus! {

#[derive(Debug, Clone, Copy, PartialEq, Eq)]
pub struct Record {
    pub id: u32,
    pub first: &'static str,
    pub last: &'static str,
    pub q3_revenue: u32,
    pub q3_cost: u32,
    pub q4_revenue: u32,
    pub q4_cost: u32,
}

#[derive(Debug, Clone, Copy, PartialEq, Eq, Structural)]
pub enum RowCount {
    Few,
    Many,
    Huge,
}

/// How many rows there are to be.
pub open spec fn rows_of(count: RowCount) -> nat {
    match count {
        RowCount::Few => 3,
        RowCount::Many => 500,
        RowCount::Huge => 50_000,
    }
}

impl RowCount {
    /// How many rows there are to be.
    pub fn value(self) -> (count: usize)
        ensures
            count == rows_of(self),
    {
        match self {
            RowCount::Few => 3,
            RowCount::Many => 500,
            RowCount::Huge => 50_000,
        }
    }
}

/// The first names, over and over.
pub open spec fn first_name(i: int) -> &'static str {
    if i % 8 == 0 {
        "Ada"
    } else if i % 8 == 1 {
        "Grace"
    } else if i % 8 == 2 {
        "Alan"
    } else if i % 8 == 3 {
        "Barbara"
    } else if i % 8 == 4 {
        "Edsger"
    } else if i % 8 == 5 {
        "Margaret"
    } else if i % 8 == 6 {
        "Ken"
    } else {
        "Radia"
    }
}

/// The last names, over and over. One is deliberately long, so that a wide cell
/// can be seen not to drag its neighbours along.
pub open spec fn last_name(i: int) -> &'static str {
    if i % 8 == 0 {
        "Lovelace"
    } else if i % 8 == 1 {
        "Hopper"
    } else if i % 8 == 2 {
        "Turing"
    } else if i % 8 == 3 {
        "Liskov"
    } else if i % 8 == 4 {
        "Dijkstra-van-der-Meulen"
    } else if i % 8 == 5 {
        "Hamilton"
    } else if i % 8 == 6 {
        "Thompson"
    } else {
        "Perlman"
    }
}

/// The record with this number.
pub open spec fn record_of(i: int) -> Record {
    Record {
        id: (i + 1) as u32,
        first: first_name(i),
        last: last_name(i),
        q3_revenue: ((i * 7919) % 90_000 + 10_000) as u32,
        q3_cost: ((i * 4241) % 40_000 + 5_000) as u32,
        q4_revenue: ((i * 6673) % 90_000 + 10_000) as u32,
        q4_cost: ((i * 3499) % 40_000 + 5_000) as u32,
    }
}

fn first_of(i: usize) -> (name: &'static str)
    ensures
        name == first_name(i as int),
{
    match i % 8 {
        0 => "Ada",
        1 => "Grace",
        2 => "Alan",
        3 => "Barbara",
        4 => "Edsger",
        5 => "Margaret",
        6 => "Ken",
        _ => "Radia",
    }
}

fn last_of(i: usize) -> (name: &'static str)
    ensures
        name == last_name(i as int),
{
    match i % 8 {
        0 => "Lovelace",
        1 => "Hopper",
        2 => "Turing",
        3 => "Liskov",
        4 => "Dijkstra-van-der-Meulen",
        5 => "Hamilton",
        6 => "Thompson",
        _ => "Perlman",
    }
}

/// That many records.
pub fn generate(rows: RowCount) -> (records: Vec<Record>)
    ensures
        records@ == Seq::new(rows_of(rows), |i: int| record_of(i)),
{
    let count: usize = rows.value();
    let mut records: Vec<Record> = Vec::new();

    for i in 0..count
        invariant
            count <= 50_000,
            records@ == Seq::new(i as nat, |k: int| record_of(k)),
    {
        let record = Record {
            id: i as u32 + 1,
            first: first_of(i),
            last: last_of(i),
            q3_revenue: ((i * 7919) % 90_000 + 10_000) as u32,
            q3_cost: ((i * 4241) % 40_000 + 5_000) as u32,
            q4_revenue: ((i * 6673) % 90_000 + 10_000) as u32,
            q4_cost: ((i * 3499) % 40_000 + 5_000) as u32,
        };

        records.push(record);
    }
    records
}

/// What the records are sorted by.
#[derive(Debug, Clone, Copy, PartialEq, Eq, Structural)]
pub struct SortKey {
    /// Logical column.
    pub column: usize,
    pub direction: Direction,
}

/// Is the first record smaller in this column?
pub open spec fn smaller_in(a: Record, b: Record, column: usize) -> bool {
    match column {
        0 => a.id < b.id,
        1 => before(a.first@, b.first@),
        2 => before(a.last@, b.last@),
        3 => a.q3_revenue < b.q3_revenue,
        4 => a.q3_cost < b.q3_cost,
        5 => a.q4_revenue < b.q4_revenue,
        6 => a.q4_cost < b.q4_cost,
        _ => false,
    }
}

/// Does the key put the first record ahead of the second? Without a key the
/// records are in the order of their ids.
pub open spec fn ahead(a: Record, b: Record, key: Option<SortKey>) -> bool {
    match key {
        None => a.id < b.id,
        Some(key) => match key.direction {
            Direction::Ascending => smaller_in(a, b, key.column),
            Direction::Descending => smaller_in(b, a, key.column),
        },
    }
}

/// Does the record at `i` go before the one at `j`? Those that the key does not
/// tell apart stay in the order they have.
pub open spec fn goes_first(records: Seq<Record>, key: Option<SortKey>, i: int, j: int) -> bool {
    ahead(records[i], records[j], key) || (!ahead(records[j], records[i], key) && i < j)
}

/// Are these the places of the records, in the order the key puts them?
pub open spec fn is_order(order: Seq<usize>, records: Seq<Record>, key: Option<SortKey>) -> bool {
    &&& order.len() == records.len()
    &&& forall|i: int| 0 <= i < order.len() ==> #[trigger] order[i] < records.len()
    &&& ordered(order, records, key)
}

/// Each place goes before all that follow it.
pub open spec fn ordered(order: Seq<usize>, records: Seq<Record>, key: Option<SortKey>) -> bool {
    forall|i: int, j: int|
        #![trigger order[i], order[j]]
        0 <= i < j < order.len() ==> goes_first(records, key, order[i] as int, order[j] as int)
}

/// The key orders the records: none goes before itself, and what goes before
/// something goes before all that it goes before.
proof fn the_key_orders(records: Seq<Record>, key: Option<SortKey>, i: int, j: int, k: int)
    ensures
        !goes_first(records, key, i, i),
        goes_first(records, key, i, j) && goes_first(records, key, j, k) ==> goes_first(
            records,
            key,
            i,
            k,
        ),
        i != j ==> goes_first(records, key, i, j) != goes_first(records, key, j, i),
{
    let a = records[i];
    let b = records[j];
    let c = records[k];

    text_facts(a.first@, b.first@, c.first@);
    text_facts(a.last@, b.last@, c.last@);
}

proof fn text_facts(a: Seq<char>, b: Seq<char>, c: Seq<char>)
    ensures
        !before(a, a),
        !(before(a, b) && before(b, a)),
        !(before(b, c) && before(c, b)),
        !(before(a, c) && before(c, a)),
        before(a, b) && before(b, c) ==> before(a, c),
        before(c, b) && before(b, a) ==> before(c, a),
        !before(a, b) && !before(b, a) ==> a == b,
        !before(b, c) && !before(c, b) ==> b == c,
        !before(a, c) && !before(c, a) ==> a == c,
{
    one_text_comes_first(a, b);
    one_text_comes_first(b, c);
    one_text_comes_first(a, c);
    if before(a, b) && before(b, c) {
        the_dictionary_is_in_order(a, b, c);
    }
    if before(c, b) && before(b, a) {
        the_dictionary_is_in_order(c, b, a);
    }
}

fn is_smaller(a: &Record, b: &Record, column: usize) -> (smaller: bool)
    ensures
        smaller == smaller_in(*a, *b, column),
{
    match column {
        0 => a.id < b.id,
        1 => comes_before(a.first, b.first),
        2 => comes_before(a.last, b.last),
        3 => a.q3_revenue < b.q3_revenue,
        4 => a.q3_cost < b.q3_cost,
        5 => a.q4_revenue < b.q4_revenue,
        6 => a.q4_cost < b.q4_cost,
        _ => false,
    }
}

fn is_ahead(a: &Record, b: &Record, key: Option<SortKey>) -> (result: bool)
    ensures
        result == ahead(*a, *b, key),
{
    match key {
        None => a.id < b.id,
        Some(key) => match key.direction {
            Direction::Ascending => is_smaller(a, b, key.column),
            Direction::Descending => is_smaller(b, a, key.column),
        },
    }
}

/// Two ordered runs, all of whose places come before those of the other, made
/// into one.
fn merge(a: Vec<usize>, b: Vec<usize>, records: &Vec<Record>, key: Option<SortKey>) -> (merged: Vec<
    usize,
>)
    requires
        ordered(a@, records@, key),
        ordered(b@, records@, key),
        forall|i: int| 0 <= i < a@.len() ==> #[trigger] a@[i] < records@.len(),
        forall|i: int| 0 <= i < b@.len() ==> #[trigger] b@[i] < records@.len(),
        forall|i: int, j: int|
            #![trigger a@[i], b@[j]]
            0 <= i < a@.len() && 0 <= j < b@.len() ==> a@[i] < b@[j],
        a@.len() + b@.len() <= usize::MAX,
    ensures
        merged@.len() == a@.len() + b@.len(),
        ordered(merged@, records@, key),
        forall|i: int|
            0 <= i < merged@.len() ==> a@.contains(#[trigger] merged@[i]) || b@.contains(merged@[i]),
{
    let mut merged: Vec<usize> = Vec::new();
    let mut i: usize = 0;
    let mut j: usize = 0;

    while i < a.len() || j < b.len()
        invariant
            i <= a@.len(),
            j <= b@.len(),
            a@.len() + b@.len() <= usize::MAX,
            ordered(a@, records@, key),
            ordered(b@, records@, key),
            forall|i: int| 0 <= i < a@.len() ==> #[trigger] a@[i] < records@.len(),
            forall|i: int| 0 <= i < b@.len() ==> #[trigger] b@[i] < records@.len(),
            forall|i: int, j: int|
                #![trigger a@[i], b@[j]]
                0 <= i < a@.len() && 0 <= j < b@.len() ==> a@[i] < b@[j],
            merged@.len() == i + j,
            ordered(merged@, records@, key),
            forall|m: int|
                0 <= m < merged@.len() ==> a@.contains(#[trigger] merged@[m]) || b@.contains(
                    merged@[m],
                ),
            forall|m: int, k: int|
                #![trigger merged@[m], a@[k]]
                0 <= m < merged@.len() && i <= k < a@.len() ==> goes_first(
                    records@,
                    key,
                    merged@[m] as int,
                    a@[k] as int,
                ),
            forall|m: int, k: int|
                #![trigger merged@[m], b@[k]]
                0 <= m < merged@.len() && j <= k < b@.len() ==> goes_first(
                    records@,
                    key,
                    merged@[m] as int,
                    b@[k] as int,
                ),
        decreases a@.len() - i + b@.len() - j,
    {
        let from_a = i < a.len() && (j >= b.len() || !is_ahead(
            &records[b[j]],
            &records[a[i]],
            key,
        ));
        let next: usize = if from_a {
            a[i]
        } else {
            b[j]
        };
        let ghost before = merged@;

        proof {
            if from_a {
                assert forall|k: int| j <= k < b@.len() implies goes_first(
                    records@,
                    key,
                    next as int,
                    #[trigger] b@[k] as int,
                ) by {
                    assert(a@[i as int] < b@[j as int]);
                    assert(goes_first(records@, key, next as int, b@[j as int] as int));
                    if k > j {
                        the_key_orders(
                            records@,
                            key,
                            next as int,
                            b@[j as int] as int,
                            b@[k] as int,
                        );
                    }
                }
                assert(a@.contains(next));
            } else {
                assert forall|k: int| i <= k < a@.len() implies goes_first(
                    records@,
                    key,
                    next as int,
                    #[trigger] a@[k] as int,
                ) by {
                    assert(goes_first(records@, key, next as int, a@[i as int] as int));
                    if k > i {
                        the_key_orders(
                            records@,
                            key,
                            next as int,
                            a@[i as int] as int,
                            a@[k] as int,
                        );
                    }
                }
                assert(b@.contains(next));
            }
        }
        merged.push(next);
        if from_a {
            i = i + 1;
        } else {
            j = j + 1;
        }
        assert(forall|m: int| 0 <= m < before.len() ==> before[m] == #[trigger] merged@[m]);
    }
    merged
}

/// The places from `low` to just before `high`, in the order the key puts them.
fn order_of(records: &Vec<Record>, key: Option<SortKey>, low: usize, high: usize) -> (order: Vec<
    usize,
>)
    requires
        low <= high <= records@.len(),
    ensures
        order@.len() == high - low,
        ordered(order@, records@, key),
        forall|i: int| 0 <= i < order@.len() ==> low <= #[trigger] order@[i] < high,
    decreases high - low,
{
    if high - low <= 1 {
        let mut order: Vec<usize> = Vec::new();

        if low < high {
            order.push(low);
        }
        order
    } else {
        let middle: usize = low + (high - low) / 2;
        let a = order_of(records, key, low, middle);
        let b = order_of(records, key, middle, high);
        let ghost (x, y) = (a@, b@);
        let order = merge(a, b, records, key);

        proof {
            assert forall|i: int| 0 <= i < order@.len() implies low <= #[trigger] order@[i]
                < high by {
                if x.contains(order@[i]) {
                    let at = choose|at: int| 0 <= at < x.len() && x[at] == order@[i];
                    assert(low <= x[at] < middle);
                } else {
                    let at = choose|at: int| 0 <= at < y.len() && y[at] == order@[i];
                    assert(middle <= y[at] < high);
                }
            }
        }
        order
    }
}

/// The records as these places put them.
pub open spec fn arranged(records: Seq<Record>, order: Seq<usize>) -> Seq<Record> {
    Seq::new(order.len(), |i: int| records[order[i] as int])
}

/// Are these the records in the order the key puts them, with those that it does
/// not tell apart left in the order they had?
pub open spec fn is_sorted(
    sorted: Seq<Record>,
    records: Seq<Record>,
    key: Option<SortKey>,
) -> bool {
    exists|order: Seq<usize>| #[trigger]
        is_order(order, records, key) && sorted == arranged(records, order)
}

/// The records in the order the key puts them. Those that it does not tell apart
/// stay in the order they have.
pub fn sorted(records: &Vec<Record>, key: Option<SortKey>) -> (result: Vec<Record>)
    ensures
        is_sorted(result@, records@, key),
{
    let order = order_of(records, key, 0, records.len());
    let mut result: Vec<Record> = Vec::new();

    for i in 0..order.len()
        invariant
            is_order(order@, records@, key),
            result@ == arranged(records@, order@.take(i as int)),
    {
        result.push(records[order[i]]);
        assert(result@ =~= arranged(records@, order@.take(i + 1)));
    }
    assert(order@.take(order@.len() as int) =~= order@);
    assert(is_order(order@, records@, key));
    result
}

/// Sorting loses no record and makes none up: every place is taken up once.
pub proof fn sorting_keeps_every_record(
    order: Seq<usize>,
    records: Seq<Record>,
    key: Option<SortKey>,
    place: int,
)
    requires
        is_order(order, records, key),
        records.len() <= usize::MAX,
        0 <= place < records.len(),
    ensures
        exists|i: int|
            0 <= i < order.len() && #[trigger] order[i] == place && arranged(records, order)[i]
                == records[place],
        forall|i: int, j: int|
            #![trigger order[i], order[j]]
            0 <= i < order.len() && 0 <= j < order.len() && order[i] == order[j] ==> i == j,
{
    let places = order.map_values(|at: usize| at as int);
    let all = vstd::set_lib::set_int_range(0, records.len() as int);

    assert forall|i: int, j: int|
        #![trigger order[i], order[j]]
        0 <= i < order.len() && 0 <= j < order.len() && order[i] == order[j] implies i == j by {
        if i < j {
            assert(goes_first(records, key, order[i] as int, order[j] as int));
            the_key_orders(records, key, order[i] as int, order[i] as int, order[i] as int);
        } else if j < i {
            assert(goes_first(records, key, order[j] as int, order[i] as int));
            the_key_orders(records, key, order[i] as int, order[i] as int, order[i] as int);
        }
    }
    assert(places.no_duplicates()) by {
        assert forall|i: int, j: int| 0 <= i < places.len() && 0 <= j < places.len() && i
            != j implies places[i] != places[j] by {
            assert(order[i] != order[j]);
        }
    }
    places.unique_seq_to_set();
    vstd::set_lib::lemma_int_range(0, records.len() as int);
    assert(places.to_set().subset_of(all)) by {
        assert forall|at: int| places.to_set().contains(at) implies all.contains(at) by {
            let i = choose|i: int| 0 <= i < places.len() && places[i] == at;
            assert(order[i] < records.len());
        }
    }
    vstd::seq_lib::seq_to_set_is_finite(places);
    vstd::set_lib::lemma_subset_equality(places.to_set(), all);
    assert(all.contains(place));
    assert(places.to_set().contains(place));
    let i = choose|i: int| 0 <= i < places.len() && places[i] == place;
    assert(order[i] == place);
}

/// The rows are in the order the key asks for: none is ahead of one before it.
pub proof fn sorted_rows_are_in_order(
    order: Seq<usize>,
    records: Seq<Record>,
    key: Option<SortKey>,
    i: int,
    j: int,
)
    requires
        is_order(order, records, key),
        0 <= i < j < records.len(),
    ensures
        !ahead(arranged(records, order)[j], arranged(records, order)[i], key),
{
    assert(goes_first(records, key, order[i] as int, order[j] as int));
    let a = records[order[i] as int];
    let b = records[order[j] as int];
    text_facts(a.first@, b.first@, a.first@);
    text_facts(a.last@, b.last@, a.last@);
}

} // verus!
