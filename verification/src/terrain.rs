//! The kinds of terrain and the symbols that stand for them in a map text.

use vstd::prelude::*;
use crate::geometry::Direction;

verus! {

/// What a single cell of the grid is made of.
#[derive(Debug, Clone, Copy, PartialEq, Eq, Structural)]
pub enum Terrain {
    /// A ball that lands here rolls one cell further in the given direction.
    Slope(Direction),
    /// An obstacle: the shot is played again.
    Tree,
    /// Weakens the next shot by one.
    Sand,
    /// The goal.
    Hole,
    /// Strengthens the next shot by one.
    Fairway,
    /// A hazard: the shot is played again.
    Water,
    /// Neutral ground.
    Grass,
    /// A cell the ball has rested on, with the number of strokes played when
    /// it came to rest there; `Start(0)` is the tee.
    Start(u8),
}

/// The symbol `>`.
pub const SYMBOL_SLOPE_EAST: u8 = 0x3e;

/// The symbol `<`.
pub const SYMBOL_SLOPE_WEST: u8 = 0x3c;

/// The symbol `^`.
pub const SYMBOL_SLOPE_NORTH: u8 = 0x5e;

/// The symbol `v`.
pub const SYMBOL_SLOPE_SOUTH: u8 = 0x76;

/// The symbol `o`.
pub const SYMBOL_HOLE: u8 = 0x6f;

/// The symbol `t`.
pub const SYMBOL_TREE: u8 = 0x74;

/// The symbol `s`.
pub const SYMBOL_SAND: u8 = 0x73;

/// The symbol `x`.
pub const SYMBOL_TEE: u8 = 0x78;

/// The symbol `w`.
pub const SYMBOL_WATER: u8 = 0x77;

/// The symbol `f`.
pub const SYMBOL_FAIRWAY: u8 = 0x66;

/// The terrain that a symbol of the map text stands for. Only the ten
/// one-byte symbols of the table are recognised; every other token is grass.
pub open spec fn terrain_of_symbol(token: Seq<u8>) -> Terrain {
    if token.len() != 1 {
        Terrain::Grass
    } else if token[0] == SYMBOL_SLOPE_EAST {
        Terrain::Slope(Direction::E)
    } else if token[0] == SYMBOL_SLOPE_WEST {
        Terrain::Slope(Direction::W)
    } else if token[0] == SYMBOL_SLOPE_NORTH {
        Terrain::Slope(Direction::N)
    } else if token[0] == SYMBOL_SLOPE_SOUTH {
        Terrain::Slope(Direction::S)
    } else if token[0] == SYMBOL_HOLE {
        Terrain::Hole
    } else if token[0] == SYMBOL_TREE {
        Terrain::Tree
    } else if token[0] == SYMBOL_SAND {
        Terrain::Sand
    } else if token[0] == SYMBOL_TEE {
        Terrain::Start(0)
    } else if token[0] == SYMBOL_WATER {
        Terrain::Water
    } else if token[0] == SYMBOL_FAIRWAY {
        Terrain::Fairway
    } else {
        Terrain::Grass
    }
}

impl Terrain {
    /// Reads one symbol of the map text: `>` `<` `^` `v` are slopes to the
    /// east, west, north and south, `o` the hole, `t` a tree, `s` sand, `x`
    /// the tee, `w` water, `f` fairway, anything else grass.
    pub fn from_symbol(token: &[u8]) -> (terrain: Terrain)
        ensures
            terrain == terrain_of_symbol(token@),
    {
        if token.len() != 1 {
            return Terrain::Grass;
        }
        let symbol: u8 = token[0];
        if symbol == SYMBOL_SLOPE_EAST {
            Terrain::Slope(Direction::E)
        } else if symbol == SYMBOL_SLOPE_WEST {
            Terrain::Slope(Direction::W)
        } else if symbol == SYMBOL_SLOPE_NORTH {
            Terrain::Slope(Direction::N)
        } else if symbol == SYMBOL_SLOPE_SOUTH {
            Terrain::Slope(Direction::S)
        } else if symbol == SYMBOL_HOLE {
            Terrain::Hole
        } else if symbol == SYMBOL_TREE {
            Terrain::Tree
        } else if symbol == SYMBOL_SAND {
            Terrain::Sand
        } else if symbol == SYMBOL_TEE {
            Terrain::Start(0)
        } else if symbol == SYMBOL_WATER {
            Terrain::Water
        } else if symbol == SYMBOL_FAIRWAY {
            Terrain::Fairway
        } else {
            Terrain::Grass
        }
    }
}

} // verus!
