//! Text: numbers written out, lines joined and counted, names compared.

use vstd::prelude::*;

verus! {

/// The character of a decimal digit.
pub open spec fn digit(value: int) -> char {
    (48 + value) as char
}

/// A number in decimal notation.
pub open spec fn digits(number: nat) -> Seq<char>
    decreases number,
{
    if number < 10 {
        seq![digit(number as int)]
    } else {
        digits(number / 10).push(digit((number % 10) as int))
    }
}

fn digit_text(value: u64) -> (text: &'static str)
    requires
        value < 10,
    ensures
        text@ == seq![digit(value as int)],
{
    proof {
        reveal_strlit("0");
        reveal_strlit("1");
        reveal_strlit("2");
        reveal_strlit("3");
        reveal_strlit("4");
        reveal_strlit("5");
        reveal_strlit("6");
        reveal_strlit("7");
        reveal_strlit("8");
        reveal_strlit("9");
    }
    let text = match value {
        0 => "0",
        1 => "1",
        2 => "2",
        3 => "3",
        4 => "4",
        5 => "5",
        6 => "6",
        7 => "7",
        8 => "8",
        _ => "9",
    };

    assert(text@ =~= seq![digit(value as int)]);
    text
}

/// A number in decimal notation.
pub fn decimal(number: u64) -> (text: String)
    ensures
        text@ == digits(number as nat),
    decreases number,
{
    if number < 10 {
        digit_text(number).to_owned()
    } else {
        let mut text = decimal(number / 10);

        text.append(digit_text(number % 10));
        assert(text@ =~= digits(number as nat));
        text
    }
}

/// What is seen of texts.
pub open spec fn views(texts: Seq<String>) -> Seq<Seq<char>> {
    texts.map_values(|text: String| text@)
}

/// Pieces of text put together with a separator between each two.
pub open spec fn joined(pieces: Seq<Seq<char>>, separator: Seq<char>) -> Seq<char>
    decreases pieces.len(),
{
    if pieces.len() == 0 {
        seq![]
    } else if pieces.len() == 1 {
        pieces[0]
    } else {
        joined(pieces.drop_last(), separator) + separator + pieces.last()
    }
}

/// Pieces of text put together with a separator between each two.
pub fn join(pieces: &Vec<String>, separator: &str) -> (text: String)
    ensures
        text@ == joined(views(pieces@), separator@),
{
    let ghost seen = views(pieces@);
    let mut text = String::new();

    assert(text@ =~= joined(seen.take(0), separator@));
    for i in 0..pieces.len()
        invariant
            seen == views(pieces@),
            text@ == joined(seen.take(i as int), separator@),
    {
        let ghost longer = seen.take(i + 1);

        assert(longer.drop_last() =~= seen.take(i as int));
        if i > 0 {
            text.append(separator);
        }
        text.append(pieces[i].as_str());
        assert(text@ =~= joined(longer, separator@));
    }
    assert(seen.take(seen.len() as int) =~= seen);
    text
}

/// How many characters end a line.
pub open spec fn line_ends(text: Seq<char>) -> nat
    decreases text.len(),
{
    if text.len() == 0 {
        0
    } else {
        line_ends(text.drop_last()) + (if text.last() == '\n' {
            1nat
        } else {
            0nat
        })
    }
}

/// How many lines there are. What follows the last line end is a line too,
/// unless nothing does.
pub open spec fn line_count(text: Seq<char>) -> nat {
    line_ends(text) + (if text.len() > 0 && text.last() != '\n' {
        1nat
    } else {
        0nat
    })
}

/// How many lines there are.
pub fn count_lines(text: &str) -> (count: usize)
    ensures
        count == line_count(text@),
{
    let size: usize = text.unicode_len();
    let mut ends: usize = 0;
    let mut open: bool = false;
    let mut seen: usize = 0;

    for letter in it: text.chars()
        invariant
            size == text@.len(),
            it.seq() == text@,
            seen == it.index(),
            ends == line_ends(text@.take(it.index())),
            ends <= seen,
            open == (it.index() > 0 && text@[it.index() - 1] != '\n'),
            open ==> ends < seen,
    {
        proof {
            let longer = text@.take(it.index() + 1);

            assert(longer.drop_last() =~= text@.take(it.index()));
            assert(longer.last() == letter);
        }
        if letter == '\n' {
            ends = ends + 1;
            open = false;
        } else {
            open = true;
        }
        seen = seen + 1;
    }
    assert(text@.take(text@.len() as int) =~= text@);
    if open {
        ends + 1
    } else {
        ends
    }
}

/// Does the first text come before the second in the dictionary?
pub open spec fn before(a: Seq<char>, b: Seq<char>) -> bool
    decreases a.len(),
{
    if b.len() == 0 {
        false
    } else if a.len() == 0 {
        true
    } else if a[0] != b[0] {
        a[0] < b[0]
    } else {
        before(a.drop_first(), b.drop_first())
    }
}

/// Of two texts that differ exactly one comes first, and none comes before
/// itself.
pub proof fn one_text_comes_first(a: Seq<char>, b: Seq<char>)
    ensures
        !before(a, a),
        a != b ==> before(a, b) != before(b, a),
        !(before(a, b) && before(b, a)),
    decreases a.len(),
{
    if a.len() > 0 && b.len() > 0 {
        one_text_comes_first(a.drop_first(), b.drop_first());
        if a[0] == b[0] && a.drop_first() == b.drop_first() {
            assert(a =~= seq![a[0]] + a.drop_first());
            assert(b =~= seq![b[0]] + b.drop_first());
        }
    } else if a.len() == 0 && b.len() == 0 {
        assert(a =~= b);
    } else if a.len() > 0 {
        one_text_comes_first(a.drop_first(), b);
    }
}

/// What comes before something comes before everything behind it.
pub proof fn the_dictionary_is_in_order(a: Seq<char>, b: Seq<char>, c: Seq<char>)
    requires
        before(a, b),
        before(b, c),
    ensures
        before(a, c),
    decreases a.len(),
{
    if a.len() > 0 && b.len() > 0 && c.len() > 0 && a[0] == b[0] && b[0] == c[0] {
        the_dictionary_is_in_order(a.drop_first(), b.drop_first(), c.drop_first());
    }
}

/// Does the first text come before the second in the dictionary?
pub fn comes_before(a: &str, b: &str) -> (first: bool)
    ensures
        first == before(a@, b@),
{
    let a_len: usize = a.unicode_len();
    let b_len: usize = b.unicode_len();
    let mut i: usize = 0;

    assert(a@.skip(0) =~= a@ && b@.skip(0) =~= b@);
    while i < a_len && i < b_len
        invariant
            a_len == a@.len(),
            b_len == b@.len(),
            i <= a_len,
            i <= b_len,
            before(a@, b@) == before(a@.skip(i as int), b@.skip(i as int)),
        decreases a_len - i,
    {
        let x = a.get_char(i);
        let y = b.get_char(i);

        assert(a@.skip(i as int)[0] == x && b@.skip(i as int)[0] == y);
        if x != y {
            return x < y;
        }
        assert(a@.skip(i as int).drop_first() =~= a@.skip(i + 1));
        assert(b@.skip(i as int).drop_first() =~= b@.skip(i + 1));
        i = i + 1;
    }
    i < b_len
}

} // verus!
