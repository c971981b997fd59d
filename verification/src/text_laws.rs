//! What numbers, joined pieces and lines of text are, character by character.

use vstd::prelude::*;
use crate::text::{before, digit, digits, joined, line_count, line_ends};

verus! {

/// The number that a decimal numeral stands for.
pub open spec fn numeral(text: Seq<char>) -> int
    decreases text.len(),
{
    if text.len() == 0 {
        0
    } else {
        10 * numeral(text.drop_last()) + (text.last() as int - '0' as int)
    }
}

/// Is this the number in decimal notation, without a zero in front?
pub open spec fn writes(text: Seq<char>, number: int) -> bool {
    &&& text.len() > 0
    &&& forall|i: int| 0 <= i < text.len() ==> '0' <= #[trigger] text[i] <= '9'
    &&& text[0] == '0' ==> text.len() == 1
    &&& numeral(text) == number
}

/// A number written out reads as that number.
pub proof fn a_number_reads_as_itself(number: nat)
    ensures
        writes(digits(number), number as int),
    decreases number,
{
    let text = digits(number);

    if number < 10 {
        assert(text.drop_last() =~= Seq::<char>::empty());
        assert(text.last() == digit(number as int));
        assert(numeral(text.drop_last()) == 0);
    } else {
        let rest = digits(number / 10);

        a_number_reads_as_itself(number / 10);
        assert(text.drop_last() =~= rest);
        assert(text.last() == digit((number % 10) as int));
        assert forall|i: int| 0 <= i < text.len() implies '0' <= #[trigger] text[i] <= '9' by {
            if i < rest.len() {
                assert(text[i] == rest[i]);
            }
        }
        if text[0] == '0' {
            assert(rest[0] == '0');
            assert(rest.len() == 1);
            assert(rest.drop_last() =~= Seq::<char>::empty());
            assert(numeral(rest.drop_last()) == 0);
            assert(numeral(rest) == 0);
        }
    }
}

/// Are these the places at which the pieces stand in the text, one after the other,
/// with one character between each two and nothing before or behind?
pub open spec fn placed(
    text: Seq<char>,
    pieces: Seq<Seq<char>>,
    starts: Seq<int>,
    between: char,
) -> bool {
    &&& starts.len() == pieces.len()
    &&& pieces.len() == 0 ==> text.len() == 0
    &&& pieces.len() > 0 ==> starts[0] == 0 && starts.last() + pieces.last().len() == text.len()
    &&& forall|i: int|
        0 <= i < pieces.len() ==> {
            &&& 0 <= #[trigger] starts[i]
            &&& starts[i] + pieces[i].len() <= text.len()
            &&& text.subrange(starts[i], starts[i] + pieces[i].len()) == pieces[i]
        }
    &&& forall|i: int|
        0 < i < pieces.len() ==> {
            &&& #[trigger] starts[i] == starts[i - 1] + pieces[i - 1].len() + 1
            &&& text[starts[i] - 1] == between
        }
}

/// Joined pieces stand one after the other, each where the one before it ends, with
/// the separator between each two.
pub proof fn joined_pieces_stand_in_a_row(pieces: Seq<Seq<char>>, between: char) -> (starts: Seq<
    int,
>)
    ensures
        placed(joined(pieces, seq![between]), pieces, starts, between),
    decreases pieces.len(),
{
    let text = joined(pieces, seq![between]);

    if pieces.len() == 0 {
        Seq::empty()
    } else if pieces.len() == 1 {
        let starts: Seq<int> = seq![0];

        assert(text.subrange(0, 0 + pieces[0].len() as int) =~= pieces[0]);
        assert(pieces.last() == pieces[0] && starts.last() == 0);
        starts
    } else {
        let most = pieces.drop_last();
        let front = joined(most, seq![between]);
        let early = joined_pieces_stand_in_a_row(most, between);
        let starts = early.push(front.len() as int + 1);

        assert(text == front + seq![between] + pieces.last());
        assert(text.len() == front.len() + 1 + pieces.last().len());
        assert(text[front.len() as int] == between);
        assert forall|i: int| 0 <= i < pieces.len() implies {
            &&& 0 <= #[trigger] starts[i]
            &&& starts[i] + pieces[i].len() <= text.len()
            &&& text.subrange(starts[i], starts[i] + pieces[i].len()) == pieces[i]
        } by {
            if i < most.len() {
                assert(starts[i] == early[i] && most[i] == pieces[i]);
                assert(front.subrange(early[i], early[i] + most[i].len()) == most[i]);
                assert(text.subrange(starts[i], starts[i] + pieces[i].len()) =~= front.subrange(
                    early[i],
                    early[i] + most[i].len(),
                ));
            } else {
                assert(text.subrange(starts[i], starts[i] + pieces[i].len()) =~= pieces.last());
            }
        }
        assert forall|i: int| 0 < i < pieces.len() implies {
            &&& #[trigger] starts[i] == starts[i - 1] + pieces[i - 1].len() + 1
            &&& text[starts[i] - 1] == between
        } by {
            assert(starts[i - 1] == early[i - 1] && most[i - 1] == pieces[i - 1]);
            if i < most.len() {
                assert(starts[i] == early[i]);
                assert(text[starts[i] - 1] == front[early[i] - 1]);
            } else {
                assert(most.last() == most[i - 1] && early.last() == early[i - 1]);
            }
        }
        starts
    }
}

/// The characters that end a line are the line ends there are.
pub proof fn every_line_end_is_counted(text: Seq<char>)
    ensures
        line_ends(text) == text.filter(|c: char| c == '\n').len(),
    decreases text.len(),
{
    reveal(Seq::filter);
    if text.len() > 0 {
        every_line_end_is_counted(text.drop_last());
    }
}

/// Line ends of a text and of what follows it add up.
proof fn line_ends_add_up(a: Seq<char>, b: Seq<char>)
    ensures
        line_ends(a + b) == line_ends(a) + line_ends(b),
    decreases b.len(),
{
    if b.len() == 0 {
        assert(a + b =~= a);
    } else {
        line_ends_add_up(a, b.drop_last());
        assert((a + b).drop_last() =~= a + b.drop_last());
        assert((a + b).last() == b.last());
    }
}

/// There is no line end in the text.
pub open spec fn in_one_line(text: Seq<char>) -> bool {
    forall|i: int| 0 <= i < text.len() ==> #[trigger] text[i] != '\n'
}

proof fn one_line_has_no_end(text: Seq<char>)
    requires
        in_one_line(text),
    ensures
        line_ends(text) == 0,
    decreases text.len(),
{
    if text.len() > 0 {
        assert(text.last() == text[text.len() - 1]);
        assert forall|i: int| 0 <= i < text.drop_last().len() implies #[trigger] text.drop_last()[i]
            != '\n' by {
            assert(text[i] != '\n');
        }
        one_line_has_no_end(text.drop_last());
    }
}

proof fn joined_lines_end_once_less(lines: Seq<Seq<char>>)
    requires
        lines.len() > 0,
        forall|i: int| 0 <= i < lines.len() ==> in_one_line(#[trigger] lines[i]),
    ensures
        line_ends(joined(lines, seq!['\n'])) == lines.len() - 1,
    decreases lines.len(),
{
    if lines.len() == 1 {
        one_line_has_no_end(lines[0]);
    } else {
        let most = lines.drop_last();
        let front = joined(most, seq!['\n']);
        let end = seq!['\n'];

        assert forall|i: int| 0 <= i < most.len() implies in_one_line(#[trigger] most[i]) by {
            assert(most[i] == lines[i]);
        }
        joined_lines_end_once_less(most);
        assert(lines.last() == lines[lines.len() - 1]);
        one_line_has_no_end(lines.last());
        line_ends_add_up(front, end);
        line_ends_add_up(front + end, lines.last());
        assert(end.drop_last() =~= Seq::<char>::empty());
        assert(end.last() == '\n');
        assert(line_ends(end.drop_last()) == 0);
        assert(line_ends(end) == 1);
    }
}

/// Lines joined by line ends are counted as that many lines, if the last of them
/// holds anything.
pub proof fn joined_lines_are_counted(lines: Seq<Seq<char>>)
    requires
        lines.len() > 0,
        lines.last().len() > 0,
        forall|i: int| 0 <= i < lines.len() ==> in_one_line(#[trigger] lines[i]),
    ensures
        line_count(joined(lines, seq!['\n'])) == lines.len(),
{
    let text = joined(lines, seq!['\n']);
    let starts = joined_pieces_stand_in_a_row(lines, '\n');
    let at = lines.len() - 1;

    joined_lines_end_once_less(lines);
    assert(lines[at] == lines.last() && starts[at] == starts.last());
    assert(text.subrange(starts[at], starts[at] + lines[at].len()).last() == text.last());
    assert(lines[at][lines[at].len() - 1] != '\n');
}

/// Of two texts the first comes before the second exactly where, behind what they
/// begin with in common, the first ends and the second goes on, or the first has
/// the lower character.
pub proof fn the_first_difference_decides(a: Seq<char>, b: Seq<char>)
    ensures
        before(a, b) <==> exists|k: int|
            {
                &&& 0 <= k <= a.len() && k < b.len()
                &&& #[trigger] a.take(k) == b.take(k)
                &&& k == a.len() || a[k] < b[k]
            },
    decreases a.len(),
{
    if a.len() == 0 && b.len() > 0 {
        assert(a.take(0) =~= b.take(0));
    } else if b.len() > 0 {
        let tail = a.drop_first();
        let rest = b.drop_first();

        the_first_difference_decides(tail, rest);
        if a[0] != b[0] {
            assert(a.take(0) =~= b.take(0));
            assert forall|k: int| 0 < k <= a.len() && k < b.len() implies #[trigger] a.take(k)
                != b.take(k) by {
                assert(a.take(k)[0] == a[0] && b.take(k)[0] == b[0]);
            }
        } else {
            assert forall|k: int| 0 <= k <= tail.len() && k < rest.len() && #[trigger] tail.take(k)
                == rest.take(k) implies a.take(k + 1) == b.take(k + 1) by {
                assert(a.take(k + 1) =~= seq![a[0]] + tail.take(k));
                assert(b.take(k + 1) =~= seq![b[0]] + rest.take(k));
            }
            assert forall|k: int| 0 < k <= a.len() && k < b.len() && #[trigger] a.take(k) == b.take(
                k,
            ) implies tail.take(k - 1) == rest.take(k - 1) by {
                assert(tail.take(k - 1) =~= a.take(k).drop_first());
                assert(rest.take(k - 1) =~= b.take(k).drop_first());
            }
            if before(a, b) {
                let k = choose|k: int|
                    {
                        &&& 0 <= k <= tail.len() && k < rest.len()
                        &&& #[trigger] tail.take(k) == rest.take(k)
                        &&& k == tail.len() || tail[k] < rest[k]
                    };
                assert(a.take(k + 1) == b.take(k + 1));
            }
        }
    }
}

} // verus!
