//! The answers that the menu takes before a run.

use vstd::prelude::*;
use crate::obj::{lemma_words_in_range, parse_number, plain_number, split_words, words};
use crate::scenario::AimingType;

verus! {

/// The number of entries in the list of categories: all scenarios, and one entry
/// for each skill.
pub const CATEGORY_COUNT: usize = 7;

/// What the menu makes of a line that was typed in.
#[derive(Clone, Copy, Debug, PartialEq, Eq, Structural)]
pub enum Answer {
    /// The number of an entry of the list.
    Picked(usize),
    /// A number, but of no entry of the list: the question is asked again.
    OutOfRange,
    /// No number at all: the question is asked again.
    NotANumber,
}

/// Takes the number that was read from a line, if one was, as the choice among
/// `count` entries numbered from zero.
pub fn accept_choice(parsed: Option<usize>, count: usize) -> (answer: Answer)
    ensures
        answer == (match parsed {
            Some(n) => if n < count {
                Answer::Picked(n)
            } else {
                Answer::OutOfRange
            },
            None => Answer::NotANumber,
        }),
{
    match parsed {
        Some(n) => {
            if n < count {
                Answer::Picked(n)
            } else {
                Answer::OutOfRange
            }
        },
        None => Answer::NotANumber,
    }
}

/// The number that a line holds: that of its one word, if it has just one and
/// that word is a number.
pub open spec fn number_typed(line: Seq<u8>) -> Option<usize> {
    let found = words(line, 0, line.len() as int);
    if found.len() == 1 {
        plain_number(line, found[0].start as int, found[0].end as int)
    } else {
        None
    }
}

/// The answer that a line gives to a question with `count` entries.
pub open spec fn answer_typed(line: Seq<u8>, count: usize) -> Answer {
    match number_typed(line) {
        Some(n) => if n < count {
            Answer::Picked(n)
        } else {
            Answer::OutOfRange
        },
        None => Answer::NotANumber,
    }
}

/// Reads the answer to a question with `count` entries from the line that was
/// typed in. Blanks round the number do not count.
pub fn read_choice(line: &[u8], count: usize) -> (answer: Answer)
    ensures
        answer == answer_typed(line@, count),
{
    let found = split_words(line, 0, line.len());
    proof {
        lemma_words_in_range(line@, 0, line@.len() as int);
    }
    let parsed = if found.len() == 1 {
        parse_number(line, found[0].start, found[0].end)
    } else {
        None
    };
    accept_choice(parsed, count)
}

/// The letter `y`.
pub const SMALL_Y: u8 = 121;

/// The letter `Y`.
pub const CAPITAL_Y: u8 = 89;

/// Whether a line asks for another run: it does if all it holds is the letter
/// `y`, small or capital.
pub open spec fn asks_again(line: Seq<u8>) -> bool {
    let found = words(line, 0, line.len() as int);
    &&& found.len() == 1
    &&& found[0].end == found[0].start + 1
    &&& (line[found[0].start as int] == SMALL_Y || line[found[0].start as int] == CAPITAL_Y)
}

/// Reads from the line that was typed in whether another run is asked for.
pub fn read_play_again(line: &[u8]) -> (again: bool)
    ensures
        again == asks_again(line@),
{
    let found = split_words(line, 0, line.len());
    proof {
        lemma_words_in_range(line@, 0, line@.len() as int);
    }
    if found.len() == 1 && found[0].end == found[0].start + 1 {
        let letter = line[found[0].start];
        letter == SMALL_Y || letter == CAPITAL_Y
    } else {
        false
    }
}

/// Whether the character that was read from a line, if one was, asks for another
/// run: only `y` and `Y` do.
pub fn play_again(parsed: Option<char>) -> (again: bool)
    ensures
        again == (parsed == Some('y') || parsed == Some('Y')),
{
    match parsed {
        Some(c) => c == 'y' || c == 'Y',
        None => false,
    }
}

/// The headline over the list of scenarios for entry `choice` of the list of
/// categories.
pub fn headline(choice: usize) -> (title: &'static str)
    ensures
        choice == 1 ==> title@ == "STATIC CLICKING"@,
        choice == 2 ==> title@ == "DYNAMIC CLICKING"@,
        choice == 3 ==> title@ == "REACTIVE TRACKING"@,
        choice == 4 ==> title@ == "PRECISE CLICKING"@,
        choice == 5 ==> title@ == "SPEED SWITCHING"@,
        choice == 6 ==> title@ == "STATIC CLICKING"@,
        choice == 0 || choice > 6 ==> title@ == "ALL SCENARIOS"@,
{
    match choice {
        1 => "STATIC CLICKING",
        2 => "DYNAMIC CLICKING",
        3 => "REACTIVE TRACKING",
        4 => "PRECISE CLICKING",
        5 => "SPEED SWITCHING",
        6 => "STATIC CLICKING",
        _ => "ALL SCENARIOS",
    }
}

/// Whether a scenario that trains `skill` is listed under entry `choice` of the
/// list of categories: every scenario under the entry for all, and under the
/// entry of a skill those that train it.
pub fn is_listed(choice: usize, skill: AimingType) -> (listed: bool)
    ensures
        listed == (match crate::scenario::category_of(choice as int) {
            Some(category) => category == skill,
            None => true,
        }),
{
    match AimingType::from_choice(choice) {
        Some(category) => category == skill,
        None => true,
    }
}

} // verus!
