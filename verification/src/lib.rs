//! A turn-based golf game on a grid of terrain cells.
//!
//! The library holds the rules of the game: the terrain grid and the text
//! format it is loaded from, the resolution of a shot into the cell where the
//! ball comes to rest, and the bookkeeping of a turn. Reading files and
//! keystrokes and writing to the terminal are left to the program around it.
//!
//! - `geometry`: points, the eight directions, the flight of a shot
//! - `terrain`: the kinds of cell and their symbols
//! - `world`: the grid and its cells
//! - `loader`: the map text and what it means
//! - `resolve`: where a shot comes to rest
//! - `turn`: the game, turn by turn
//! - `input`: the player's answers
//! - `dice`: the roll that gives a turn its strength
//! - `render`: the picture of the grid for a terminal

pub mod dice;
pub mod geometry;
pub mod input;
pub mod loader;
pub mod render;
pub mod resolve;
pub mod terrain;
pub mod turn;
pub mod world;
