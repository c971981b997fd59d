//! The keyboard, as far as the table listens to it.

use vstd::prelude::*;

verus! {

/// Bit of the Shift key among the modifiers.
pub const SHIFT: u32 = 0b100;

/// Bit of the Control key.
pub const CTRL: u32 = 0b100_000;

/// Bit of the logo key, which is Command on macOS.
pub const LOGO: u32 = 0b100_000_000_000;

/// A key that was pressed.
#[derive(Debug)]
pub enum Key {
    Up,
    Down,
    Left,
    Right,
    /// A key that types something.
    Character(String),
    Other,
}

/// Which way an arrow key steps.
#[derive(Debug, Clone, Copy, PartialEq, Eq, Structural)]
pub enum Step {
    Back,
    Stay,
    Forward,
}

/// The step down the rows and the step across the columns that a key makes.
pub open spec fn steps_of(key: Key) -> Option<(Step, Step)> {
    match key {
        Key::Up => Some((Step::Back, Step::Stay)),
        Key::Down => Some((Step::Forward, Step::Stay)),
        Key::Left => Some((Step::Stay, Step::Back)),
        Key::Right => Some((Step::Stay, Step::Forward)),
        _ => None,
    }
}

/// The step down the rows and the step across the columns that a key makes.
pub fn steps(key: &Key) -> (steps: Option<(Step, Step)>)
    ensures
        steps == steps_of(*key),
{
    match key {
        Key::Up => Some((Step::Back, Step::Stay)),
        Key::Down => Some((Step::Forward, Step::Stay)),
        Key::Left => Some((Step::Stay, Step::Back)),
        Key::Right => Some((Step::Stay, Step::Forward)),
        _ => None,
    }
}

/// The place one step from this one, which stays among `count` of them.
pub open spec fn stepped(at: usize, step: Step, count: usize) -> int {
    let to = match step {
        Step::Back => at - 1,
        Step::Stay => at as int,
        Step::Forward => at + 1,
    };

    if to < 0 {
        0
    } else if to >= count {
        count - 1
    } else {
        to
    }
}

/// The place one step from this one, clamped to `count` of them.
pub fn step(at: usize, way: Step, count: usize) -> (to: usize)
    requires
        count > 0,
    ensures
        to == stepped(at, way, count),
{
    match way {
        Step::Back => if at == 0 {
            0
        } else if at - 1 >= count {
            count - 1
        } else {
            at - 1
        },
        Step::Stay => if at >= count {
            count - 1
        } else {
            at
        },
        Step::Forward => if at >= count - 1 {
            count - 1
        } else {
            at + 1
        },
    }
}

/// A step is to the next place or to the one before, whatever the count: forward
/// from `at` to `at + 1` and back to `at - 1`, except that the last place is not
/// left forward, nor the first one back. A place that is no longer there is taken
/// for the last.
pub proof fn a_step_is_to_the_next_place(at: usize, count: usize)
    requires
        count > 0,
    ensures
        at + 1 < count ==> stepped(at, Step::Forward, count) == at + 1,
        at + 1 >= count ==> stepped(at, Step::Forward, count) == count - 1,
        0 < at < count ==> stepped(at, Step::Back, count) == at - 1,
        at == 0 ==> stepped(at, Step::Back, count) == 0,
        at == count ==> stepped(at, Step::Back, count) == count - 1,
        at > count ==> stepped(at, Step::Back, count) == count - 1,
        at < count ==> stepped(at, Step::Stay, count) == at,
        at >= count ==> stepped(at, Step::Stay, count) == count - 1,
{
}

/// Up and down step through the rows, left and right through the columns, and each
/// undoes the other away from the edges. No other key steps.
pub proof fn arrows_step_along_one_axis(key: Key)
    ensures
        key is Up ==> steps_of(key) == Some((Step::Back, Step::Stay)),
        key is Down ==> steps_of(key) == Some((Step::Forward, Step::Stay)),
        key is Left ==> steps_of(key) == Some((Step::Stay, Step::Back)),
        key is Right ==> steps_of(key) == Some((Step::Stay, Step::Forward)),
        steps_of(key) is Some <==> key is Up || key is Down || key is Left || key is Right,
{
}

/// Does the key type the letter C, whatever its case?
pub open spec fn types_c(key: Key) -> bool {
    key matches Key::Character(text) && (text@ == seq!['c'] || text@ == seq!['C'])
}

/// Does the key type the letter C, whatever its case?
pub fn is_c(key: &Key) -> (is: bool)
    ensures
        is == types_c(*key),
{
    match key {
        Key::Character(text) => {
            let text = text.as_str();

            if text.unicode_len() == 1 {
                let letter = text.get_char(0);

                assert(text@ =~= seq![letter]);
                assert(seq![letter][0] == letter);
                assert(seq!['c'][0] == 'c' && seq!['C'][0] == 'C');
                letter == 'c' || letter == 'C'
            } else {
                assert(seq!['c'].len() == 1 && seq!['C'].len() == 1);
                false
            }
        },
        _ => false,
    }
}

/// Is Shift among the modifiers that are held?
///
/// Calls `Modifiers::shift` of `iced::keyboard` on the modifiers with these
/// bits: it is true exactly where they hold the Shift bit.
#[verifier::external_body]
pub(crate) fn shift(modifiers: u32) -> (held: bool)
    ensures
        held == (modifiers & SHIFT == SHIFT),
{
    iced::keyboard::Modifiers::from_bits_truncate(modifiers).shift()
}

/// Is the platform's command key among the modifiers that are held?
///
/// Calls `Modifiers::command` of `iced::keyboard` on the modifiers with these
/// bits. Which key that is depends on the platform: the logo key on macOS, the
/// Control key elsewhere. So its answer is that of one of the two bits, and
/// which of the two is left unsaid.
#[verifier::external_body]
pub(crate) fn command(modifiers: u32) -> (held: bool)
    ensures
        held == (modifiers & CTRL == CTRL) || held == (modifiers & LOGO == LOGO),
{
    iced::keyboard::Modifiers::from_bits_truncate(modifiers).command()
}

} // verus!
