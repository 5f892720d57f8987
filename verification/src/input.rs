//! The player's answers: one line of text for the direction, one for the
//! club. A line is matched as a whole, letter for letter, after the blanks
//! around it are removed; an empty line ends the game, any other line that
//! is not in the table is not recognised.

use vstd::prelude::*;
use vstd::slice::slice_subrange;
use crate::geometry::{Action, Direction};
use crate::loader::{is_blank, LINE_FEED};

verus! {

/// The letter `N`.
pub const LETTER_N: u8 = 0x4e;

/// The letter `S`.
pub const LETTER_S: u8 = 0x53;

/// The letter `E`.
pub const LETTER_E: u8 = 0x45;

/// The letter `W`.
pub const LETTER_W: u8 = 0x57;

/// The letter `D`.
pub const LETTER_D: u8 = 0x44;

/// The letter `P`.
pub const LETTER_P: u8 = 0x50;

/// The two ways to strike the ball.
#[derive(Debug, Clone, Copy, PartialEq, Eq, Structural)]
pub enum Club {
    /// Strikes with the strength of the turn.
    Drive,
    /// Strikes with strength one, whatever the strength of the turn.
    Put,
}

/// What a line of input says when a direction is asked for.
#[derive(Debug, Clone, Copy, PartialEq, Eq, Structural)]
pub enum DirectionReply {
    Chosen(Direction),
    /// The line was empty: the player leaves the game.
    Quit,
    /// The line names no direction.
    Unrecognized,
}

/// What a line of input says when a club is asked for.
#[derive(Debug, Clone, Copy, PartialEq, Eq, Structural)]
pub enum ClubReply {
    Chosen(Club),
    /// The line was empty: the player leaves the game.
    Quit,
    /// The line names no club.
    Unrecognized,
}

/// Bytes that are removed from both ends of a line: blanks and line feeds.
pub open spec fn is_space(b: u8) -> bool {
    is_blank(b) || b == LINE_FEED
}

/// The first position from `from` on that holds no space, or the end of the
/// line.
pub open spec fn skip_spaces(line: Seq<u8>, from: int) -> int
    decreases line.len() - from,
{
    if from >= line.len() || !is_space(line[from]) {
        from
    } else {
        skip_spaces(line, from + 1)
    }
}

/// The end of the line without the spaces in `from..to` that close it.
pub open spec fn drop_spaces(line: Seq<u8>, from: int, to: int) -> int
    decreases to - from,
{
    if to <= from || !is_space(line[to - 1]) {
        to
    } else {
        drop_spaces(line, from, to - 1)
    }
}

/// The line without the spaces before and after its text.
pub open spec fn trimmed(line: Seq<u8>) -> Seq<u8> {
    let from = skip_spaces(line, 0);
    line.subrange(from, drop_spaces(line, from, line.len() as int))
}

/// The direction that a trimmed line names.
pub open spec fn direction_named(word: Seq<u8>) -> DirectionReply {
    if word.len() == 0 {
        DirectionReply::Quit
    } else if word.len() == 1 && word[0] == LETTER_N {
        DirectionReply::Chosen(Direction::N)
    } else if word.len() == 1 && word[0] == LETTER_S {
        DirectionReply::Chosen(Direction::S)
    } else if word.len() == 1 && word[0] == LETTER_E {
        DirectionReply::Chosen(Direction::E)
    } else if word.len() == 1 && word[0] == LETTER_W {
        DirectionReply::Chosen(Direction::W)
    } else if word.len() == 2 && word[0] == LETTER_N && word[1] == LETTER_W {
        DirectionReply::Chosen(Direction::NW)
    } else if word.len() == 2 && word[0] == LETTER_N && word[1] == LETTER_E {
        DirectionReply::Chosen(Direction::NE)
    } else if word.len() == 2 && word[0] == LETTER_S && word[1] == LETTER_E {
        DirectionReply::Chosen(Direction::SE)
    } else if word.len() == 2 && word[0] == LETTER_S && word[1] == LETTER_W {
        DirectionReply::Chosen(Direction::SW)
    } else {
        DirectionReply::Unrecognized
    }
}

/// The club that a trimmed line names.
pub open spec fn club_named(word: Seq<u8>) -> ClubReply {
    if word.len() == 0 {
        ClubReply::Quit
    } else if word.len() == 1 && word[0] == LETTER_P {
        ClubReply::Chosen(Club::Put)
    } else if word.len() == 1 && word[0] == LETTER_D {
        ClubReply::Chosen(Club::Drive)
    } else {
        ClubReply::Unrecognized
    }
}

/// The word that names a direction.
pub open spec fn word_of(direction: Direction) -> Seq<u8> {
    match direction {
        Direction::N => seq![LETTER_N],
        Direction::S => seq![LETTER_S],
        Direction::E => seq![LETTER_E],
        Direction::W => seq![LETTER_W],
        Direction::NE => seq![LETTER_N, LETTER_E],
        Direction::NW => seq![LETTER_N, LETTER_W],
        Direction::SE => seq![LETTER_S, LETTER_E],
        Direction::SW => seq![LETTER_S, LETTER_W],
    }
}

/// Every direction has exactly one word: its word names it, and no other
/// word does.
pub proof fn lemma_each_direction_has_one_word(direction: Direction, word: Seq<u8>)
    ensures
        direction_named(word_of(direction)) == DirectionReply::Chosen(direction),
        direction_named(word) == DirectionReply::Chosen(direction) ==> word == word_of(direction),
{
    if direction_named(word) == DirectionReply::Chosen(direction) {
        assert(word =~= word_of(direction));
    }
}

impl Club {
    /// The shot that this club plays in `direction` in a turn of the given
    /// strength.
    pub open spec fn action_spec(self, direction: Direction, strength: i32) -> Action {
        match self {
            Club::Drive => Action::Drive(direction, strength),
            Club::Put => Action::Put(direction),
        }
    }

    /// The shot that this club plays in `direction` in a turn of the given
    /// strength: a drive uses the strength, a put does not.
    #[verifier::when_used_as_spec(action_spec)]
    pub fn action(self, direction: Direction, strength: i32) -> (action: Action)
        ensures
            action == self.action_spec(direction, strength),
    {
        match self {
            Club::Drive => Action::Drive(direction, strength),
            Club::Put => Action::Put(direction),
        }
    }
}

fn space(b: u8) -> (r: bool)
    ensures
        r == is_space(b),
{
    b == 0x20 || b == 0x09 || b == 0x0b || b == 0x0c || b == 0x0d || b == LINE_FEED
}

/// The text of a line, without the spaces around it.
fn trim(line: &[u8]) -> (word: &[u8])
    ensures
        word@ == trimmed(line@),
{
    let mut from: usize = 0;
    while from < line.len() && space(line[from])
        invariant
            from <= line@.len(),
            skip_spaces(line@, 0) == skip_spaces(line@, from as int),
        decreases line@.len() - from,
    {
        from += 1;
    }
    let mut to: usize = line.len();
    while to > from && space(line[to - 1])
        invariant
            from <= to <= line@.len(),
            drop_spaces(line@, from as int, line@.len() as int) == drop_spaces(
                line@,
                from as int,
                to as int,
            ),
        decreases to - from,
    {
        to -= 1;
    }
    slice_subrange(line, from, to)
}

/// Reads the player's answer to the question for a direction: one of `N`,
/// `S`, `E`, `W`, `NW`, `NE`, `SE`, `SW`, in capitals.
pub fn parse_direction(line: &[u8]) -> (reply: DirectionReply)
    ensures
        reply == direction_named(trimmed(line@)),
{
    let word: &[u8] = trim(line);
    if word.len() == 0 {
        DirectionReply::Quit
    } else if word.len() == 1 {
        let a: u8 = word[0];
        if a == LETTER_N {
            DirectionReply::Chosen(Direction::N)
        } else if a == LETTER_S {
            DirectionReply::Chosen(Direction::S)
        } else if a == LETTER_E {
            DirectionReply::Chosen(Direction::E)
        } else if a == LETTER_W {
            DirectionReply::Chosen(Direction::W)
        } else {
            DirectionReply::Unrecognized
        }
    } else if word.len() == 2 {
        let a: u8 = word[0];
        let b: u8 = word[1];
        if a == LETTER_N && b == LETTER_W {
            DirectionReply::Chosen(Direction::NW)
        } else if a == LETTER_N && b == LETTER_E {
            DirectionReply::Chosen(Direction::NE)
        } else if a == LETTER_S && b == LETTER_E {
            DirectionReply::Chosen(Direction::SE)
        } else if a == LETTER_S && b == LETTER_W {
            DirectionReply::Chosen(Direction::SW)
        } else {
            DirectionReply::Unrecognized
        }
    } else {
        DirectionReply::Unrecognized
    }
}

/// Reads the player's answer to the question for a club: `D` for a drive,
/// `P` for a put.
pub fn parse_club(line: &[u8]) -> (reply: ClubReply)
    ensures
        reply == club_named(trimmed(line@)),
{
    let word: &[u8] = trim(line);
    if word.len() == 0 {
        ClubReply::Quit
    } else if word.len() == 1 && word[0] == LETTER_P {
        ClubReply::Chosen(Club::Put)
    } else if word.len() == 1 && word[0] == LETTER_D {
        ClubReply::Chosen(Club::Drive)
    } else {
        ClubReply::Unrecognized
    }
}

} // verus!
