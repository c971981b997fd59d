//! Column width policies.
//!
//! A column's width is settled in passes over the measured widths: group
//! headers push their columns wider, the policies clamp what was measured, and
//! what is left over is handed out by weight or clawed back. What is decided on
//! the way -- which columns take part, in which order, and within which bounds
//! -- is decided here; the sums and quotients are the caller's.

use vstd::prelude::*;
use crate::px::{at_most, below, held_between, larger, smaller, zero, Px};

verus! {

/// How a single leaf column claims horizontal space.
#[derive(Debug, Clone, Copy, PartialEq)]
pub enum Sizing {
    /// Exact width. Never grows, never shrinks, never absorbs slack.
    Fixed(Px),
    /// Widest measured content, clamped to `[min, max]`.
    Fit { min: Px, max: Px },
    /// Fits its content, then takes a weighted share of leftover space.
    ///
    /// `min` is a shrink floor, not a starting width.
    Fill { weight: u16, min: Px },
}

/// Bit pattern of 48, the narrowest a column gets by default.
pub const DEFAULT_MIN: u32 = 0x4240_0000;

/// Bit pattern of infinity.
pub const UNBOUNDED: u32 = 0x7f80_0000;

/// The floor a column may never be shrunk below.
pub open spec fn floor_of(sizing: Sizing) -> Px {
    match sizing {
        Sizing::Fixed(width) => width,
        Sizing::Fit { min, .. } => min,
        Sizing::Fill { min, .. } => min,
    }
}

impl Sizing {
    /// The floor this column may never be shrunk below.
    pub fn min_width(&self) -> (floor: Px)
        ensures
            floor == floor_of(*self),
    {
        match self {
            Sizing::Fixed(width) => *width,
            Sizing::Fit { min, .. } => *min,
            Sizing::Fill { min, .. } => *min,
        }
    }

    pub fn is_fixed(&self) -> (fixed: bool)
        ensures
            fixed == (self is Fixed),
    {
        match self {
            Sizing::Fixed(_) => true,
            _ => false,
        }
    }
}

impl Default for Sizing {
    fn default() -> (sizing: Self)
        ensures
            sizing == (Sizing::Fit {
                min: (Px { bits: DEFAULT_MIN }),
                max: (Px { bits: UNBOUNDED }),
            }),
    {
        Sizing::Fit { min: Px { bits: DEFAULT_MIN }, max: Px { bits: UNBOUNDED } }
    }
}

/// What to do when the resolved columns are wider than the space available.
#[derive(Debug, Clone, Copy, PartialEq, Eq, Structural)]
pub enum Overflow {
    /// Let the content exceed the viewport. The caller scrolls or clips.
    ///
    /// This is the default on purpose: shrinking every column at once
    /// truncates text everywhere and reads as broken, whereas a horizontal
    /// scroll reads as intentional.
    Scroll,
    /// Shrink non-`Fixed` columns toward their minimums, proportional to how
    /// much headroom each one has above its own minimum.
    Shrink,
}

impl Default for Overflow {
    fn default() -> (overflow: Self)
        ensures
            overflow == Overflow::Scroll,
    {
        Overflow::Scroll
    }
}

/// A header cell that covers more than one leaf column and therefore may force
/// those leaves to grow.
#[derive(Debug, Clone, Copy, PartialEq)]
pub struct SpanRequest {
    /// First leaf column covered, inclusive.
    pub start: usize,
    /// Last leaf column covered, inclusive.
    pub end: usize,
    /// Intrinsic width of the header element sitting on top of the span.
    pub needed: Px,
}

/// How many columns lie between the first and the last of a span.
pub open spec fn breadth(span: SpanRequest) -> int {
    span.end - span.start
}

/// `span` put into a list ordered by breadth, after those it ties with.
pub open spec fn slotted(ordered: Seq<SpanRequest>, span: SpanRequest) -> Seq<SpanRequest>
    decreases ordered.len(),
{
    if ordered.len() == 0 || breadth(ordered.last()) <= breadth(span) {
        ordered.push(span)
    } else {
        slotted(ordered.drop_last(), span).push(ordered.last())
    }
}

/// The spans over more than one column, narrowest first; those that tie keep
/// their order.
pub open spec fn narrowest_first(spans: Seq<SpanRequest>) -> Seq<SpanRequest>
    decreases spans.len(),
{
    if spans.len() == 0 {
        seq![]
    } else {
        let before = narrowest_first(spans.drop_last());

        if spans.last().end > spans.last().start {
            slotted(before, spans.last())
        } else {
            before
        }
    }
}

/// The spans that can push columns wider, in the order they are worked off.
///
/// **Narrowest first**, so that a group nested inside another group settles
/// before the outer group measures its children.
pub fn span_order(spans: &[SpanRequest]) -> (ordered: Vec<SpanRequest>)
    ensures
        ordered@ == narrowest_first(spans@),
{
    let mut ordered: Vec<SpanRequest> = Vec::new();

    for i in 0..spans.len()
        invariant
            ordered@ == narrowest_first(spans@.take(i as int)),
            forall|k: int| 0 <= k < ordered@.len() ==> breadth(#[trigger] ordered@[k]) > 0,
    {
        let span = spans[i];

        assert(spans@.take(i + 1).drop_last() =~= spans@.take(i as int));
        if span.end > span.start {
            let ghost before = ordered@;
            let mut at: usize = ordered.len();

            while at > 0 && ordered[at - 1].end - ordered[at - 1].start > span.end - span.start
                invariant
                    at <= ordered@.len(),
                    ordered@ == before,
                    span.end > span.start,
                    forall|k: int| 0 <= k < before.len() ==> breadth(#[trigger] before[k]) > 0,
                    forall|k: int|
                        at <= k < before.len() ==> breadth(#[trigger] before[k]) > breadth(span),
                decreases at,
            {
                at = at - 1;
            }
            ordered.insert(at, span);
            proof {
                slotted_is(before, span, at as int);
            }
        }
    }
    assert(spans@.take(spans@.len() as int) =~= spans@);
    ordered
}

proof fn slotted_is(ordered: Seq<SpanRequest>, span: SpanRequest, at: int)
    requires
        0 <= at <= ordered.len(),
        forall|k: int| at <= k < ordered.len() ==> breadth(#[trigger] ordered[k]) > breadth(span),
        at > 0 ==> breadth(ordered[at - 1]) <= breadth(span),
    ensures
        slotted(ordered, span) == ordered.insert(at, span),
    decreases ordered.len(),
{
    if at < ordered.len() {
        slotted_is(ordered.drop_last(), span, at);
        assert(ordered.drop_last().insert(at, span).push(ordered.last()) =~= ordered.insert(
            at,
            span,
        ));
    } else {
        assert(ordered.push(span) =~= ordered.insert(at, span));
    }
}

/// The columns of a span that may be pushed wider, in order.
pub open spec fn giving(sizing: Seq<Sizing>, start: int, past: int) -> Seq<usize>
    decreases past - start,
{
    if past <= start {
        seq![]
    } else {
        let before = giving(sizing, start, past - 1);

        if sizing[past - 1] is Fixed {
            before
        } else {
            before.push((past - 1) as usize)
        }
    }
}

/// The columns that a span pushes wider: all of it but the fixed ones, and none
/// where the span already has the width its label needs.
pub fn growable(sizing: &[Sizing], span: SpanRequest, current: Px) -> (columns: Vec<usize>)
    requires
        span.start <= span.end < sizing@.len(),
    ensures
        columns@ == (if at_most(span.needed, current) {
            seq![]
        } else {
            giving(sizing@, span.start as int, span.end + 1)
        }),
{
    let count: usize = sizing.len();
    let mut columns: Vec<usize> = Vec::new();

    assert(span.end < count);
    if !span.needed.is_at_most(current) {
        for i in span.start..span.end + 1
            invariant
                span.start <= span.end < sizing@.len(),
                columns@ == giving(sizing@, span.start as int, i as int),
        {
            if !sizing[i].is_fixed() {
                columns.push(i);
            }
        }
    }
    columns
}

/// The policy of a column once the user may have dragged it to a width.
pub open spec fn overridden(
    sizing: Seq<Sizing>,
    overrides: Seq<Option<Px>>,
    column: int,
) -> Sizing {
    if column < overrides.len() && overrides[column] is Some {
        Sizing::Fixed(overrides[column]->0)
    } else {
        sizing[column]
    }
}

/// Apply user resize overrides on top of the declared sizing policy.
///
/// A width the user dragged to is a `Fixed` width for every later pass: it
/// must not be re-derived from content, must not absorb slack, and must not be
/// grown by a group header above it.
pub fn with_overrides(sizing: &[Sizing], overrides: &[Option<Px>]) -> (result: Vec<Sizing>)
    ensures
        result@ == Seq::new(sizing@.len(), |i: int| overridden(sizing@, overrides@, i)),
{
    let mut result: Vec<Sizing> = Vec::new();

    for i in 0..sizing.len()
        invariant
            result@ == Seq::new(i as nat, |k: int| overridden(sizing@, overrides@, k)),
    {
        let spec = if i < overrides.len() {
            match overrides[i] {
                Some(width) => Sizing::Fixed(width),
                None => sizing[i],
            }
        } else {
            sizing[i]
        };

        result.push(spec);
    }
    result
}

/// The width a column has before leftover space is considered: what was
/// measured, within the bounds of its policy.
pub open spec fn base_width(sizing: Sizing, measured: Px) -> Px {
    match sizing {
        Sizing::Fixed(width) => width,
        Sizing::Fit { min, max } => held_between(measured, min, max),
        Sizing::Fill { min, .. } => larger(measured, min),
    }
}

/// A range that something can be clamped to.
pub open spec fn clampable(sizing: Sizing) -> bool {
    sizing matches Sizing::Fit { min, max } ==> at_most(min, max)
}

/// The widths of the columns before leftover space is considered.
pub fn base_widths(sizing: &[Sizing], intrinsic: &[Px]) -> (widths: Vec<Px>)
    requires
        sizing@.len() == intrinsic@.len(),
        forall|i: int| 0 <= i < sizing@.len() ==> clampable(#[trigger] sizing@[i]),
    ensures
        widths@ == Seq::new(sizing@.len(), |i: int| base_width(sizing@[i], intrinsic@[i])),
{
    let mut widths: Vec<Px> = Vec::new();

    for i in 0..sizing.len()
        invariant
            sizing@.len() == intrinsic@.len(),
            forall|k: int| 0 <= k < sizing@.len() ==> clampable(#[trigger] sizing@[k]),
            widths@ == Seq::new(i as nat, |k: int| base_width(sizing@[k], intrinsic@[k])),
    {
        assert(clampable(sizing@[i as int]));
        let width = match sizing[i] {
            Sizing::Fixed(width) => width,
            Sizing::Fit { min, max } => intrinsic[i].clamp(min, max),
            Sizing::Fill { min, .. } => intrinsic[i].max(min),
        };

        widths.push(width);
    }
    widths
}

/// The share a column has in what is left over: its weight, at least one, for a
/// `Fill` column, and none for any other.
pub open spec fn claim(sizing: Sizing) -> nat {
    match sizing {
        Sizing::Fill { weight, .. } => if weight == 0 {
            1
        } else {
            weight as nat
        },
        _ => 0,
    }
}

/// The claims of all columns together.
pub open spec fn claims(sizing: Seq<Sizing>) -> nat
    decreases sizing.len(),
{
    if sizing.len() == 0 {
        0
    } else {
        claims(sizing.drop_last()) + claim(sizing.last())
    }
}

proof fn claims_grow(sizing: Seq<Sizing>, count: int)
    requires
        0 <= count <= sizing.len(),
    ensures
        claims(sizing.take(count)) <= claims(sizing),
    decreases sizing.len(),
{
    if count < sizing.len() {
        claims_grow(sizing.drop_last(), count);
        assert(sizing.drop_last().take(count) =~= sizing.take(count));
    } else {
        assert(sizing.take(count) =~= sizing);
    }
}

/// The share of one column in what is left over.
pub fn weight_of(sizing: Sizing) -> (weight: u32)
    ensures
        weight == claim(sizing),
{
    match sizing {
        Sizing::Fill { weight, .. } => if weight == 0 {
            1
        } else {
            weight as u32
        },
        _ => 0,
    }
}

/// The shares of all columns together.
pub fn fill_weight(sizing: &[Sizing]) -> (total: u32)
    requires
        claims(sizing@) <= u32::MAX,
    ensures
        total == claims(sizing@),
{
    let mut total: u32 = 0;

    for i in 0..sizing.len()
        invariant
            claims(sizing@) <= u32::MAX,
            total == claims(sizing@.take(i as int)),
    {
        proof {
            claims_grow(sizing@, i + 1);
            assert(sizing@.take(i + 1).drop_last() =~= sizing@.take(i as int));
        }
        total = total + weight_of(sizing[i]);
    }
    assert(sizing@.take(sizing@.len() as int) =~= sizing@);
    total
}

/// What happens to the difference between the space there is and the space the
/// columns take.
#[derive(Debug, Clone, Copy, PartialEq, Eq, Structural)]
pub enum Spread {
    /// It is handed out to the `Fill` columns by weight.
    Grow,
    /// It is clawed back from the columns that can give.
    Shrink,
    /// The widths stand as they are.
    Keep,
}

/// What happens to leftover (or missing) space.
pub open spec fn spread_of(slack: Px, fill_weight: u32, overflow: Overflow) -> Spread {
    if below(zero(), slack) && fill_weight > 0 {
        Spread::Grow
    } else if below(slack, zero()) && overflow == Overflow::Shrink {
        Spread::Shrink
    } else {
        Spread::Keep
    }
}

/// What happens to leftover (or missing) space.
pub fn spread(slack: Px, fill_weight: u32, overflow: Overflow) -> (spread: Spread)
    ensures
        spread == spread_of(slack, fill_weight, overflow),
{
    if Px::zero().is_below(slack) && fill_weight > 0 {
        Spread::Grow
    } else if slack.is_below(Px::zero()) && overflow == Overflow::Shrink {
        Spread::Shrink
    } else {
        Spread::Keep
    }
}

/// What a column can give: nothing if it is fixed or at its floor, else what it
/// has above the floor.
pub open spec fn can_give(sizing: Sizing, above: Px) -> Px {
    if sizing is Fixed {
        zero()
    } else {
        larger(above, zero())
    }
}

/// What each column can give when space is clawed back. `above` is by how much
/// each exceeds its floor.
pub fn headroom(sizing: &[Sizing], above: &[Px]) -> (room: Vec<Px>)
    requires
        sizing@.len() == above@.len(),
    ensures
        room@ == Seq::new(sizing@.len(), |i: int| can_give(sizing@[i], above@[i])),
{
    let mut room: Vec<Px> = Vec::new();

    for i in 0..sizing.len()
        invariant
            sizing@.len() == above@.len(),
            room@ == Seq::new(i as nat, |k: int| can_give(sizing@[k], above@[k])),
    {
        let zero = Px { bits: 0 };
        let give = if sizing[i].is_fixed() {
            zero
        } else {
            above[i].max(zero)
        };

        room.push(give);
    }
    room
}

/// What is taken in all: what is missing, as far as the columns can give it.
pub fn deficit(missing: Px, total: Px) -> (taken: Px)
    ensures
        taken == smaller(missing, total),
{
    missing.min(total)
}

/// The rows to measure: `sample` of them, spread evenly over the whole table.
pub open spec fn sampled_row(row_count: int, sample: int, step: int) -> int {
    step * row_count / sample
}

/// How many rows are measured.
pub open spec fn sample_size(row_count: int, limit: Option<usize>) -> int {
    match limit {
        Some(limit) if limit < row_count => limit as int,
        _ => row_count,
    }
}

proof fn sample_bound(row_count: int, sample: int, step: int)
    requires
        0 <= step < sample <= row_count,
    ensures
        0 <= sampled_row(row_count, sample, step) < row_count,
{
    assert(0 <= step * row_count < sample * row_count) by (nonlinear_arith)
        requires
            0 <= step < sample <= row_count,
    ;
    assert(sampled_row(row_count, sample, step) < row_count) by (nonlinear_arith)
        requires
            0 <= step * row_count < sample * row_count,
            sample > 0,
            sampled_row(row_count, sample, step) == step * row_count / sample,
    ;
    assert(0 <= sampled_row(row_count, sample, step)) by (nonlinear_arith)
        requires
            0 <= step * row_count,
            sample > 0,
            sampled_row(row_count, sample, step) == step * row_count / sample,
    ;
}

/// The rows to measure when deriving intrinsic widths.
///
/// Spread across the whole table rather than taken from its head: sampling the
/// head makes every column's width a function of row order, so that re-sorting
/// the same rows would visibly resize the columns.
pub fn sample_rows(row_count: usize, limit: Option<usize>) -> (rows: Vec<usize>)
    ensures
        rows@.len() == sample_size(row_count as int, limit),
        forall|step: int|
            0 <= step < rows@.len() ==> #[trigger] rows@[step] == sampled_row(
                row_count as int,
                rows@.len() as int,
                step,
            ),
        forall|step: int| 0 <= step < rows@.len() ==> #[trigger] rows@[step] < row_count,
{
    let sample: usize = match limit {
        Some(limit) => if limit < row_count { limit } else { row_count },
        None => row_count,
    };
    let mut rows: Vec<usize> = Vec::new();

    for step in 0..sample
        invariant
            sample <= row_count,
            rows@.len() == step,
            forall|k: int|
                0 <= k < step ==> #[trigger] rows@[k] == sampled_row(
                    row_count as int,
                    sample as int,
                    k,
                ),
            forall|k: int| 0 <= k < step ==> #[trigger] rows@[k] < row_count,
    {
        proof {
            sample_bound(row_count as int, sample as int, step as int);
            assert(step * row_count <= u64::MAX * u64::MAX) by (nonlinear_arith)
                requires
                    step <= u64::MAX,
                    row_count <= u64::MAX,
            ;
        }
        let scaled: u128 = step as u128 * row_count as u128;

        rows.push((scaled / sample as u128) as usize);
    }
    rows
}

/// Each span comes before all the broader ones, and they are the spans that
/// were asked for, as far as they cover more than one column. A group nested
/// inside another is therefore worked off before the outer one.
pub proof fn inner_spans_settle_first(spans: Seq<SpanRequest>)
    ensures
        forall|i: int, j: int|
            #![trigger narrowest_first(spans)[i], narrowest_first(spans)[j]]
            0 <= i <= j < narrowest_first(spans).len() ==> breadth(narrowest_first(spans)[i])
                <= breadth(narrowest_first(spans)[j]),
        forall|span: SpanRequest| #[trigger]
            narrowest_first(spans).contains(span) <==> spans.contains(span) && span.end
                > span.start,
    decreases spans.len(),
{
    broadcast use vstd::seq_lib::group_seq_properties;

    if spans.len() > 0 {
        let before = narrowest_first(spans.drop_last());

        inner_spans_settle_first(spans.drop_last());
        slotted_keeps_order(before, spans.last());
        assert(spans =~= spans.drop_last().push(spans.last()));
    }
}

proof fn slotted_keeps_order(ordered: Seq<SpanRequest>, span: SpanRequest)
    requires
        forall|i: int, j: int|
            #![trigger ordered[i], ordered[j]]
            0 <= i <= j < ordered.len() ==> breadth(ordered[i]) <= breadth(ordered[j]),
    ensures
        forall|i: int, j: int|
            #![trigger slotted(ordered, span)[i], slotted(ordered, span)[j]]
            0 <= i <= j < slotted(ordered, span).len() ==> breadth(slotted(ordered, span)[i])
                <= breadth(slotted(ordered, span)[j]),
        forall|other: SpanRequest| #[trigger]
            slotted(ordered, span).contains(other) <==> ordered.contains(other) || other == span,
    decreases ordered.len(),
{
    broadcast use vstd::seq_lib::group_seq_properties;

    if !(ordered.len() == 0 || breadth(ordered.last()) <= breadth(span)) {
        let before = ordered.drop_last();
        let placed = slotted(before, span);

        slotted_keeps_order(before, span);
        assert(ordered =~= before.push(ordered.last()));
        assert forall|i: int| 0 <= i < placed.len() implies breadth(#[trigger] placed[i])
            <= breadth(ordered.last()) by {
            assert(placed.contains(placed[i]));
            if placed[i] != span {
                assert(before.contains(placed[i]));
                let at = choose|at: int| 0 <= at < before.len() && before[at] == placed[i];
                assert(breadth(ordered[at]) <= breadth(ordered[ordered.len() - 1]));
            }
        }
    }
}

/// A column the user has dragged to a width keeps exactly that width, whatever
/// is measured in it, and takes no share in what is left over, gives nothing
/// back, and is not pushed by a group above it.
pub proof fn a_dragged_width_is_kept(
    sizing: Seq<Sizing>,
    overrides: Seq<Option<Px>>,
    column: int,
    width: Px,
    measured: Px,
    above: Px,
)
    requires
        0 <= column < sizing.len(),
        column < overrides.len(),
        overrides[column] == Some(width),
    ensures
        base_width(overridden(sizing, overrides, column), measured) == width,
        claim(overridden(sizing, overrides, column)) == 0,
        can_give(overridden(sizing, overrides, column), above) == zero(),
        overridden(sizing, overrides, column) is Fixed,
{
}

/// No fixed column is pushed wider, and every other one of the span is.
pub proof fn only_fixed_columns_are_spared(sizing: Seq<Sizing>, start: int, past: int, column: usize)
    requires
        0 <= start,
        past <= usize::MAX,
    ensures
        giving(sizing, start, past).contains(column) <==> start <= column < past && !(
        sizing[column as int] is Fixed),
    decreases past - start,
{
    broadcast use vstd::seq_lib::group_seq_properties;

    if past > start {
        only_fixed_columns_are_spared(sizing, start, past - 1, column);
    }
}

/// Before leftover space is considered no column is below its floor.
pub proof fn no_column_starts_below_its_floor(sizing: Sizing, measured: Px)
    requires
        clampable(sizing),
    ensures
        !below(base_width(sizing, measured), floor_of(sizing)),
{
}

/// The sampled rows run through the table from its first row on, none twice,
/// and with every row sampled each one is its own sample.
pub proof fn the_sample_spreads_over_the_table(row_count: int, sample: int, step: int, later: int)
    requires
        0 <= step < later < sample <= row_count,
    ensures
        sampled_row(row_count, sample, 0) == 0,
        sampled_row(row_count, sample, step) < sampled_row(row_count, sample, later),
        sampled_row(row_count, row_count, step) == step,
        row_count - sampled_row(row_count, sample, sample - 1) <= row_count / sample + 1,
{
    let a = step * row_count;
    let b = later * row_count;

    assert(a + sample <= b) by (nonlinear_arith)
        requires
            0 <= step < later < sample <= row_count,
            a == step * row_count,
            b == later * row_count,
    ;
    assert(a / sample + 1 == (a + sample) / sample) by (nonlinear_arith)
        requires
            sample > 0,
    ;
    assert((a + sample) / sample <= b / sample) by (nonlinear_arith)
        requires
            sample > 0,
            a + sample <= b,
    ;
    assert(0int * row_count == 0);
    assert(0int / sample == 0) by (nonlinear_arith)
        requires
            sample > 0,
    ;
    assert(step * row_count / row_count == step) by (nonlinear_arith)
        requires
            row_count > 0,
    ;
    let q = row_count / sample;
    let r = row_count % sample;
    let l = (sample - 1) * row_count;

    assert(row_count == q * sample + r && 0 <= r < sample) by (nonlinear_arith)
        requires
            sample > 0,
            q == row_count / sample,
            r == row_count % sample,
    ;
    assert(l == sample * (row_count - q - 1) + (sample - r)) by (nonlinear_arith)
        requires
            l == (sample - 1) * row_count,
            row_count == q * sample + r,
    ;
    assert(l / sample >= row_count - q - 1) by (nonlinear_arith)
        requires
            l == sample * (row_count - q - 1) + (sample - r),
            0 <= r < sample,
    ;
}

/// What is remembered of the columns from one layout to the next.
#[derive(Debug)]
pub struct Widths {
    /// Widest content ever measured per column...
    pub measured: Vec<Px>,
    /// ...and the row count that measurement belongs to. Together they keep
    /// column widths from twitching when the same rows are merely reordered.
    pub measured_rows: usize,
    /// Per-column widths the user has dragged to. `None` means "follow the
    /// declared sizing policy".
    pub overrides: Vec<Option<Px>>,
}

/// Does the measurement belong to a table with these rows and columns?
pub open spec fn is_latched(widths: Widths, columns: nat, row_count: usize) -> bool {
    widths.measured@.len() == columns && widths.measured_rows == row_count
}

/// The column's override, or the width it is pinned to where it has none.
pub open spec fn pinned(overrides: Seq<Option<Px>>, widths: Seq<Px>, column: int) -> Option<Px> {
    if overrides[column] is None && column < widths.len() {
        Some(widths[column])
    } else {
        overrides[column]
    }
}

/// The overrides of a table with this many columns: those there are, if they are of
/// as many columns, and else none.
pub open spec fn settled(overrides: Seq<Option<Px>>, columns: nat) -> Seq<Option<Px>> {
    if overrides.len() == columns {
        overrides
    } else {
        Seq::new(columns, |i: int| None)
    }
}

/// What the columns measure, with what they measured before where that is of the
/// same table.
pub open spec fn latched_with(widths: Widths, intrinsic: Seq<Px>, row_count: usize) -> Seq<Px> {
    if is_latched(widths, intrinsic.len(), row_count) {
        Seq::new(intrinsic.len(), |i: int| larger(widths.measured@[i], intrinsic[i]))
    } else {
        intrinsic
    }
}

/// The overrides once a column has been dragged to a width.
pub open spec fn dragged(overrides: Seq<Option<Px>>, column: usize, width: Px, min: Px) -> Seq<
    Option<Px>,
> {
    if column < overrides.len() {
        overrides.update(column as int, Some(larger(width, min)))
    } else {
        overrides
    }
}

impl Default for Widths {
    fn default() -> (widths: Self)
        ensures
            widths.measured@.len() == 0,
            widths.measured_rows == 0,
            widths.overrides@.len() == 0,
    {
        Widths { measured: Vec::new(), measured_rows: 0, overrides: Vec::new() }
    }
}

impl Widths {
    /// Drop the overrides if the column count changed: an override is
    /// meaningless once the columns are not the same columns.
    pub fn settle(&mut self, columns: usize)
        ensures
            final(self).measured == old(self).measured,
            final(self).measured_rows == old(self).measured_rows,
            final(self).overrides@ == settled(old(self).overrides@, columns as nat),
    {
        if self.overrides.len() != columns {
            let mut overrides: Vec<Option<Px>> = Vec::new();

            for i in 0..columns
                invariant
                    overrides@ == Seq::new(i as nat, |k: int| None::<Px>),
            {
                overrides.push(None);
            }
            self.overrides = overrides;
        }
    }

    /// Latch a measurement so that a column can never *shrink* while it holds
    /// the same rows, and give back what the columns measure now.
    ///
    /// Only some of the rows are measured, so a re-sort can move a long value
    /// out of the measured set. Remembering the widest ever seen turns that
    /// into one-way growth that settles. A change in the row count measures
    /// from scratch.
    pub fn latch(&mut self, intrinsic: Vec<Px>, row_count: usize) -> (latched: Vec<Px>)
        ensures
            latched@ == latched_with(*old(self), intrinsic@, row_count),
            final(self).measured@ == latched@,
            final(self).measured_rows == row_count,
            final(self).overrides == old(self).overrides,
    {
        let mut latched: Vec<Px> = Vec::new();
        let held = self.measured.len() == intrinsic.len() && self.measured_rows == row_count;

        for i in 0..intrinsic.len()
            invariant
                held == is_latched(*self, intrinsic@.len(), row_count),
                *self == *old(self),
                latched@.len() == i,
                forall|k: int|
                    0 <= k < i ==> #[trigger] latched@[k] == (if held {
                        larger(self.measured@[k], intrinsic@[k])
                    } else {
                        intrinsic@[k]
                    }),
        {
            let width = if held {
                self.measured[i].max(intrinsic[i])
            } else {
                intrinsic[i]
            };

            latched.push(width);
        }
        self.measured = copy_of(&latched);
        self.measured_rows = row_count;
        latched
    }

    /// Pin every column to the width it has right now, unless the user has
    /// dragged it before.
    ///
    /// Otherwise a dragged edge does not move at all whenever a `Fill` column is
    /// present: what the dragged column gives up is re-absorbed at once, and
    /// some unrelated column silently changes size to pay for it.
    pub fn pin(&mut self, widths: &[Px])
        ensures
            final(self).measured == old(self).measured,
            final(self).measured_rows == old(self).measured_rows,
            final(self).overrides@ == Seq::new(
                old(self).overrides@.len(),
                |i: int| pinned(old(self).overrides@, widths@, i),
            ),
    {
        let mut overrides: Vec<Option<Px>> = Vec::new();

        for i in 0..self.overrides.len()
            invariant
                *self == *old(self),
                overrides@ == Seq::new(i as nat, |k: int| pinned(self.overrides@, widths@, k)),
        {
            let width = if self.overrides[i].is_none() && i < widths.len() {
                Some(widths[i])
            } else {
                self.overrides[i]
            };

            overrides.push(width);
        }
        self.overrides = overrides;
    }

    /// Drag a column to a width, but not below `min`.
    pub fn drag(&mut self, column: usize, width: Px, min: Px)
        ensures
            final(self).measured == old(self).measured,
            final(self).measured_rows == old(self).measured_rows,
            final(self).overrides@ == dragged(old(self).overrides@, column, width, min),
    {
        if column < self.overrides.len() {
            self.overrides.set(column, Some(width.max(min)));
        }
    }
}

fn copy_of(items: &Vec<Px>) -> (copy: Vec<Px>)
    ensures
        copy@ == items@,
{
    let mut copy: Vec<Px> = Vec::new();

    for i in 0..items.len()
        invariant
            copy@ == items@.take(i as int),
    {
        copy.push(items[i]);
    }
    assert(items@.take(items@.len() as int) =~= items@);
    copy
}

/// Once the columns are pinned every one of them is fixed, so a drag moves one
/// edge and no other column's width.
pub proof fn pinned_columns_are_all_fixed(
    sizing: Seq<Sizing>,
    overrides: Seq<Option<Px>>,
    widths: Seq<Px>,
    column: int,
)
    requires
        sizing.len() == overrides.len() == widths.len(),
        0 <= column < sizing.len(),
    ensures
        overridden(
            sizing,
            Seq::new(overrides.len(), |i: int| pinned(overrides, widths, i)),
            column,
        ) is Fixed,
        overrides[column] is None ==> overridden(
            sizing,
            Seq::new(overrides.len(), |i: int| pinned(overrides, widths, i)),
            column,
        ) == Sizing::Fixed(widths[column]),
{
}

} // verus!
