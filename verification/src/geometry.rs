//! Coordinates, compass directions and the flight of a struck ball.

use vstd::prelude::*;

verus! {

/// A grid coordinate: `x` counts rows downwards, `y` counts columns to the
/// right. A point by itself may lie outside any grid.
#[derive(Debug, Clone, Copy, PartialEq, Eq, Structural)]
pub struct Point {
    pub x: i32,
    pub y: i32,
}

/// The eight compass directions. Each one is a displacement of one cell, and
/// none of them is the zero displacement.
#[derive(Debug, Clone, Copy, PartialEq, Eq, Structural)]
pub enum Direction {
    N,
    S,
    E,
    W,
    NE,
    NW,
    SE,
    SW,
}

impl Direction {
    /// Rows moved by one step in this direction (north is up, towards row 0).
    pub open spec fn row_step(self) -> int {
        match self {
            Direction::N | Direction::NE | Direction::NW => -1,
            Direction::S | Direction::SE | Direction::SW => 1,
            Direction::E | Direction::W => 0,
        }
    }

    /// Columns moved by one step in this direction (east is to the right).
    pub open spec fn col_step(self) -> int {
        match self {
            Direction::E | Direction::NE | Direction::SE => 1,
            Direction::W | Direction::NW | Direction::SW => -1,
            Direction::N | Direction::S => 0,
        }
    }

    /// The displacement of one step, as a point.
    pub fn delta(self) -> (d: Point)
        ensures
            d.x == self.row_step(),
            d.y == self.col_step(),
    {
        match self {
            Direction::N => Point { x: -1, y: 0 },
            Direction::S => Point { x: 1, y: 0 },
            Direction::E => Point { x: 0, y: 1 },
            Direction::W => Point { x: 0, y: -1 },
            Direction::NE => Point { x: -1, y: 1 },
            Direction::NW => Point { x: -1, y: -1 },
            Direction::SE => Point { x: 1, y: 1 },
            Direction::SW => Point { x: 1, y: -1 },
        }
    }
}

/// Every direction moves the ball to one of the eight neighbours of its
/// cell, never leaves it where it is, and no two directions move it to the
/// same neighbour.
pub proof fn lemma_directions_are_the_eight_neighbours(a: Direction, b: Direction)
    ensures
        -1 <= a.row_step() <= 1,
        -1 <= a.col_step() <= 1,
        a.row_step() != 0 || a.col_step() != 0,
        a.row_step() == b.row_step() && a.col_step() == b.col_step() ==> a == b,
{
}

/// What the player does with the ball: a drive flies `strength` cells in a
/// direction, a put always moves exactly one cell.
#[derive(Debug, Clone, Copy, PartialEq, Eq, Structural)]
pub enum Action {
    Drive(Direction, i32),
    Put(Direction),
}

impl Action {
    /// The direction the ball is struck in.
    pub open spec fn direction(self) -> Direction {
        match self {
            Action::Drive(d, _) => d,
            Action::Put(d) => d,
        }
    }

    /// The number of cells the ball flies.
    pub open spec fn strength(self) -> int {
        match self {
            Action::Drive(_, s) => s as int,
            Action::Put(_) => 1,
        }
    }
}

/// Row of the cell where a ball struck at `from` comes down, before any
/// terrain acts on it: the origin plus `strength` steps of the direction.
pub open spec fn flight_row(from: Point, action: Action) -> int {
    from.x + action.strength() * action.direction().row_step()
}

/// Column of the cell where a ball struck at `from` comes down.
pub open spec fn flight_col(from: Point, action: Action) -> int {
    from.y + action.strength() * action.direction().col_step()
}

/// Whether the raw landing cell of the shot can be written as a `Point`.
pub open spec fn flight_fits(from: Point, action: Action) -> bool {
    &&& i32::MIN <= flight_row(from, action) <= i32::MAX
    &&& i32::MIN <= flight_col(from, action) <= i32::MAX
}

/// The raw landing coordinates of a shot, computed without overflow.
pub(crate) fn flight(from: &Point, action: Action) -> (landing: (i64, i64))
    ensures
        landing.0 == flight_row(*from, action),
        landing.1 == flight_col(*from, action),
{
    let (dir, strength): (Direction, i32) = match action {
        Action::Put(d) => (d, 1),
        Action::Drive(d, strength) => (d, strength),
    };
    let d = dir.delta();
    assert(-0x8000_0000 <= strength * d.x <= 0x8000_0000) by (nonlinear_arith)
        requires
            -1 <= d.x <= 1,
            -0x8000_0000 <= strength < 0x8000_0000,
    ;
    assert(-0x8000_0000 <= strength * d.y <= 0x8000_0000) by (nonlinear_arith)
        requires
            -1 <= d.y <= 1,
            -0x8000_0000 <= strength < 0x8000_0000,
    ;
    let row: i64 = from.x as i64 + strength as i64 * d.x as i64;
    let col: i64 = from.y as i64 + strength as i64 * d.y as i64;
    (row, col)
}

/// Where a ball struck at `from` comes down, before any terrain acts on it.
/// The grid is not consulted: the result may lie outside it.
pub fn shot(from: &Point, action: Action) -> (landing: Point)
    requires
        flight_fits(*from, action),
    ensures
        landing.x == flight_row(*from, action),
        landing.y == flight_col(*from, action),
{
    let (row, col) = flight(from, action);
    Point { x: row as i32, y: col as i32 }
}

} // verus!
