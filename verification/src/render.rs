//! The picture of the grid, as the bytes that draw it on a terminal.

use vstd::prelude::*;
use termion::color;
use crate::geometry::{Direction, Point};
use crate::terrain::Terrain;
use crate::world::{Grid, World};

verus! {

/// The escape byte that opens a control sequence.
pub const ESCAPE: u8 = 0x1b;

/// The byte `[`, second of a control sequence.
pub const BRACKET: u8 = 0x5b;

/// The byte `;` between the numbers of a control sequence.
pub const SEMICOLON: u8 = 0x3b;

/// The digit `0`.
pub const DIGIT_ZERO: u8 = 0x30;

/// The colours the picture is drawn in.
#[derive(Debug, Clone, Copy, PartialEq, Eq, Structural)]
pub enum Paint {
    Red,
    Green,
    LightGreen,
    LightYellow,
    LightBlue,
    /// A colour by its red, green and blue parts.
    Rgb(u8, u8, u8),
}

/// The colour a terrain is drawn in.
pub open spec fn paint_of(terrain: Terrain) -> Paint {
    match terrain {
        Terrain::Fairway => Paint::LightGreen,
        Terrain::Start(_) => Paint::Rgb(255, 255, 255),
        Terrain::Tree => Paint::Rgb(0, 255, 0),
        Terrain::Hole => Paint::Red,
        Terrain::Sand => Paint::LightYellow,
        Terrain::Water => Paint::LightBlue,
        Terrain::Slope(Direction::E) => Paint::LightGreen,
        Terrain::Slope(Direction::W) => Paint::LightGreen,
        Terrain::Slope(Direction::N) => Paint::LightGreen,
        Terrain::Slope(Direction::S) => Paint::LightGreen,
        _ => Paint::Green,
    }
}

/// The digits of `n` in base ten, without leading zeros.
pub open spec fn decimal(n: nat) -> Seq<u8>
    decreases n,
{
    if n < 10 {
        seq![(DIGIT_ZERO + n) as u8]
    } else {
        decimal(n / 10).push((DIGIT_ZERO + n % 10) as u8)
    }
}

/// What is written into the cell of a terrain: the number of the stroke on a
/// cell where the ball has rested, one character for any other terrain (`@`
/// fairway, `Y` tree, `F` hole, `*` sand, `w` water, `>` `<` `^` `v` the
/// slopes to the four main directions, `#` anything else).
pub open spec fn glyph_of(terrain: Terrain) -> Seq<u8> {
    match terrain {
        Terrain::Fairway => seq![0x40u8],
        Terrain::Start(n) => decimal(n as nat),
        Terrain::Tree => seq![0x59u8],
        Terrain::Hole => seq![0x46u8],
        Terrain::Sand => seq![0x2au8],
        Terrain::Water => seq![0x77u8],
        Terrain::Slope(Direction::E) => seq![0x3eu8],
        Terrain::Slope(Direction::W) => seq![0x3cu8],
        Terrain::Slope(Direction::N) => seq![0x5eu8],
        Terrain::Slope(Direction::S) => seq![0x76u8],
        _ => seq![0x23u8],
    }
}

/// The bytes that clear the screen.
pub open spec fn clear_sequence() -> Seq<u8> {
    seq![ESCAPE, BRACKET, 0x32u8, 0x4au8]
}

/// The bytes that move the cursor to a column and a row, both counted from
/// one.
pub open spec fn goto_sequence(column: u16, row: u16) -> Seq<u8> {
    seq![ESCAPE, BRACKET] + decimal(row as nat) + seq![SEMICOLON] + decimal(column as nat)
        + seq![0x48u8]
}

/// The number of a named colour among the colours of a terminal.
pub open spec fn colour_number(paint: Paint) -> nat {
    match paint {
        Paint::Red => 1,
        Paint::Green => 2,
        Paint::LightGreen => 10,
        Paint::LightYellow => 11,
        Paint::LightBlue => 12,
        Paint::Rgb(_, _, _) => 0,
    }
}

/// The bytes that switch the colour of the text that follows: by number for
/// a named colour, by its three parts for any other.
pub open spec fn foreground_sequence(paint: Paint) -> Seq<u8> {
    match paint {
        Paint::Rgb(r, g, b) => seq![ESCAPE, BRACKET, 0x33u8, 0x38u8, SEMICOLON, 0x32u8, SEMICOLON]
            + decimal(r as nat) + seq![SEMICOLON] + decimal(g as nat) + seq![SEMICOLON] + decimal(
            b as nat,
        ) + seq![0x6du8],
        named => seq![ESCAPE, BRACKET, 0x33u8, 0x38u8, SEMICOLON, 0x35u8, SEMICOLON] + decimal(
            colour_number(named),
        ) + seq![0x6du8],
    }
}

/// Whether `bytes` switch to the colour `paint`, or are empty, as they are
/// for a terminal that is to show no colours.
pub open spec fn is_ink(bytes: Seq<u8>, paint: Paint) -> bool {
    bytes.len() == 0 || bytes == foreground_sequence(paint)
}

/// The bytes that switch the terminal to each of the colours of the picture,
/// one entry for each kind of cell.
#[derive(Debug)]
pub struct Palette {
    pub fairway: Vec<u8>,
    pub marker: Vec<u8>,
    pub tree: Vec<u8>,
    pub hole: Vec<u8>,
    pub sand: Vec<u8>,
    pub water: Vec<u8>,
    pub slope: Vec<u8>,
    pub rough: Vec<u8>,
}

/// The mathematical content of a `Palette`.
pub struct Inks {
    pub fairway: Seq<u8>,
    pub marker: Seq<u8>,
    pub tree: Seq<u8>,
    pub hole: Seq<u8>,
    pub sand: Seq<u8>,
    pub water: Seq<u8>,
    pub slope: Seq<u8>,
    pub rough: Seq<u8>,
}

impl View for Palette {
    type V = Inks;

    open spec fn view(&self) -> Inks {
        Inks {
            fairway: self.fairway@,
            marker: self.marker@,
            tree: self.tree@,
            hole: self.hole@,
            sand: self.sand@,
            water: self.water@,
            slope: self.slope@,
            rough: self.rough@,
        }
    }
}

impl Inks {
    /// The bytes that switch to the colour of a terrain. Slopes to the four
    /// main directions share one entry; grass and every other slope are
    /// drawn as rough.
    pub open spec fn ink_of(self, terrain: Terrain) -> Seq<u8> {
        match terrain {
            Terrain::Fairway => self.fairway,
            Terrain::Start(_) => self.marker,
            Terrain::Tree => self.tree,
            Terrain::Hole => self.hole,
            Terrain::Sand => self.sand,
            Terrain::Water => self.water,
            Terrain::Slope(Direction::E) => self.slope,
            Terrain::Slope(Direction::W) => self.slope,
            Terrain::Slope(Direction::N) => self.slope,
            Terrain::Slope(Direction::S) => self.slope,
            _ => self.rough,
        }
    }
}

/// The bytes that draw the cell `p`: its colour, the cursor on its place
/// (column `y + 1` of row `x + 1`), and its glyph.
pub open spec fn cell_drawing(g: Grid, inks: Inks, p: Point) -> Seq<u8> {
    inks.ink_of(g.terrain_at(p)) + goto_sequence((p.y + 1) as u16, (p.x + 1) as u16) + glyph_of(
        g.terrain_at(p),
    )
}

/// The bytes that draw the first `n` cells of row `x`.
pub open spec fn row_drawing(g: Grid, inks: Inks, x: int, n: int) -> Seq<u8>
    decreases n,
{
    if n <= 0 {
        Seq::empty()
    } else {
        row_drawing(g, inks, x, n - 1) + cell_drawing(
            g,
            inks,
            Point { x: x as i32, y: (n - 1) as i32 },
        )
    }
}

/// The bytes that draw the first `m` rows.
pub open spec fn rows_drawing(g: Grid, inks: Inks, m: int) -> Seq<u8>
    decreases m,
{
    if m <= 0 {
        Seq::empty()
    } else {
        rows_drawing(g, inks, m - 1) + row_drawing(g, inks, m - 1, g.width)
    }
}

/// The bytes that draw the whole grid: the screen is cleared, the cursor
/// goes to the top left corner, then every cell is drawn, row after row.
pub open spec fn frame_of(g: Grid, inks: Inks) -> Seq<u8> {
    clear_sequence() + goto_sequence(1, 1) + rows_drawing(g, inks, g.height)
}

/// Formats `termion::clear::All`.
///
/// Trusted: termion writes this value as the control sequence introducer
/// followed by `2J`, four bytes in all.
#[verifier::external_body]
fn clear_screen() -> (bytes: Vec<u8>)
    ensures
        bytes@ == clear_sequence(),
{
    format!("{}", termion::clear::All).into_bytes()
}

/// Formats `termion::cursor::Goto(column, row)`.
///
/// Trusted: termion writes this value as the control sequence introducer,
/// the row in decimal, a semicolon, the column in decimal and `H`. It
/// refuses the position (0, 0) in debug builds, which the precondition
/// leaves out.
#[verifier::external_body]
fn cursor_to(column: u16, row: u16) -> (bytes: Vec<u8>)
    requires
        column != 0 || row != 0,
    ensures
        bytes@ == goto_sequence(column, row),
{
    format!("{}", termion::cursor::Goto(column, row)).into_bytes()
}

/// Formats `termion::color::Fg` of the termion colour that `paint` stands
/// for.
///
/// Trusted: termion writes the sequence that selects the colour (`38;5;`
/// and the number of a named colour, or `38;2;` and the three parts of any
/// other, between the control sequence introducer and `m`), or nothing at
/// all where the variable `NO_COLOR` is set for the process. Which of the
/// two comes back is not claimed.
#[verifier::external_body]
fn foreground(paint: Paint) -> (bytes: Vec<u8>)
    ensures
        is_ink(bytes@, paint),
{
    match paint {
        Paint::Red => format!("{}", color::Fg(color::Red)),
        Paint::Green => format!("{}", color::Fg(color::Green)),
        Paint::LightGreen => format!("{}", color::Fg(color::LightGreen)),
        Paint::LightYellow => format!("{}", color::Fg(color::LightYellow)),
        Paint::LightBlue => format!("{}", color::Fg(color::LightBlue)),
        Paint::Rgb(r, g, b) => format!("{}", color::Fg(color::Rgb(r, g, b))),
    }.into_bytes()
}

/// The digits of `n` in base ten.
fn decimal_digits(n: u16) -> (digits: Vec<u8>)
    ensures
        digits@ == decimal(n as nat),
    decreases n,
{
    if n < 10 {
        let mut digits: Vec<u8> = Vec::new();
        digits.push(DIGIT_ZERO + n as u8);
        digits
    } else {
        let mut digits: Vec<u8> = decimal_digits(n / 10);
        digits.push(DIGIT_ZERO + (n % 10) as u8);
        digits
    }
}

/// What is written into the cell of a terrain.
pub fn glyph(terrain: &Terrain) -> (bytes: Vec<u8>)
    ensures
        bytes@ == glyph_of(*terrain),
{
    let mut bytes: Vec<u8> = Vec::new();
    match terrain {
        Terrain::Fairway => bytes.push(0x40),
        Terrain::Start(n) => {
            bytes = decimal_digits(*n as u16);
        },
        Terrain::Tree => bytes.push(0x59),
        Terrain::Hole => bytes.push(0x46),
        Terrain::Sand => bytes.push(0x2a),
        Terrain::Water => bytes.push(0x77),
        Terrain::Slope(Direction::E) => bytes.push(0x3e),
        Terrain::Slope(Direction::W) => bytes.push(0x3c),
        Terrain::Slope(Direction::N) => bytes.push(0x5e),
        Terrain::Slope(Direction::S) => bytes.push(0x76),
        _ => bytes.push(0x23),
    }
    bytes
}

/// The colour a terrain is drawn in.
pub fn paint(terrain: &Terrain) -> (paint: Paint)
    ensures
        paint == paint_of(*terrain),
{
    match terrain {
        Terrain::Fairway => Paint::LightGreen,
        Terrain::Start(_) => Paint::Rgb(255, 255, 255),
        Terrain::Tree => Paint::Rgb(0, 255, 0),
        Terrain::Hole => Paint::Red,
        Terrain::Sand => Paint::LightYellow,
        Terrain::Water => Paint::LightBlue,
        Terrain::Slope(Direction::E) => Paint::LightGreen,
        Terrain::Slope(Direction::W) => Paint::LightGreen,
        Terrain::Slope(Direction::N) => Paint::LightGreen,
        Terrain::Slope(Direction::S) => Paint::LightGreen,
        _ => Paint::Green,
    }
}

/// Appends a copy of `bytes` to `frame`.
fn append_copy(frame: &mut Vec<u8>, bytes: &Vec<u8>)
    ensures
        final(frame)@ == old(frame)@ + bytes@,
{
    let ghost before = frame@;
    let mut i: usize = 0;
    while i < bytes.len()
        invariant
            i <= bytes@.len(),
            frame@ == before + bytes@.take(i as int),
        decreases bytes@.len() - i,
    {
        frame.push(bytes[i]);
        i += 1;
    }
}

impl Clone for Palette {
    /// A copy of the palette, entry for entry.
    fn clone(&self) -> (copy: Palette)
        ensures
            copy@ == self@,
    {
        let copy = Palette {
            fairway: self.fairway.clone(),
            marker: self.marker.clone(),
            tree: self.tree.clone(),
            hole: self.hole.clone(),
            sand: self.sand.clone(),
            water: self.water.clone(),
            slope: self.slope.clone(),
            rough: self.rough.clone(),
        };
        copy
    }
}

impl Palette {
    /// The palette of the terminal the program runs on, as termion gives
    /// it: each entry switches to the colour of its kind of cell, or is
    /// empty where colours are switched off.
    pub fn terminal() -> (palette: Palette)
        ensures
            forall|terrain: Terrain| is_ink(#[trigger] palette@.ink_of(terrain), paint_of(terrain)),
    {
        Palette {
            fairway: foreground(paint(&Terrain::Fairway)),
            marker: foreground(paint(&Terrain::Start(0))),
            tree: foreground(paint(&Terrain::Tree)),
            hole: foreground(paint(&Terrain::Hole)),
            sand: foreground(paint(&Terrain::Sand)),
            water: foreground(paint(&Terrain::Water)),
            slope: foreground(paint(&Terrain::Slope(Direction::E))),
            rough: foreground(paint(&Terrain::Grass)),
        }
    }

    /// The entry for the colour of a terrain.
    pub fn ink(&self, terrain: &Terrain) -> (bytes: &Vec<u8>)
        ensures
            bytes@ == self@.ink_of(*terrain),
    {
        match terrain {
            Terrain::Fairway => &self.fairway,
            Terrain::Start(_) => &self.marker,
            Terrain::Tree => &self.tree,
            Terrain::Hole => &self.hole,
            Terrain::Sand => &self.sand,
            Terrain::Water => &self.water,
            Terrain::Slope(Direction::E) => &self.slope,
            Terrain::Slope(Direction::W) => &self.slope,
            Terrain::Slope(Direction::N) => &self.slope,
            Terrain::Slope(Direction::S) => &self.slope,
            _ => &self.rough,
        }
    }
}

/// Draws the grid: the bytes that, written to a terminal, clear it and
/// paint every cell in its place, in the colours of `palette`.
pub fn render(world: &World, palette: &Palette) -> (frame: Vec<u8>)
    requires
        world@.wf(),
        world@.width <= u16::MAX,
        world@.height <= u16::MAX,
    ensures
        frame@ == frame_of(world@, palette@),
{
    let mut frame: Vec<u8> = clear_screen();
    let mut home: Vec<u8> = cursor_to(1, 1);
    frame.append(&mut home);
    let ghost head = frame@;
    let height: i32 = world.height();
    let width: i32 = world.width();
    let mut x: i32 = 0;
    while x < height
        invariant
            world@.wf(),
            height == world@.height,
            width == world@.width,
            width <= u16::MAX,
            height <= u16::MAX,
            0 <= x <= height,
            head == clear_sequence() + goto_sequence(1, 1),
            frame@ == head + rows_drawing(world@, palette@, x as int),
        decreases height - x,
    {
        let ghost above = frame@;
        let mut y: i32 = 0;
        while y < width
            invariant
                world@.wf(),
                height == world@.height,
                width == world@.width,
                width <= u16::MAX,
                height <= u16::MAX,
                0 <= x < height,
                0 <= y <= width,
                frame@ == above + row_drawing(world@, palette@, x as int, y as int),
            decreases width - y,
        {
            let spot: Point = Point { x, y };
            let terrain: &Terrain = world.get_terrain(&spot);
            let ghost before = frame@;
            append_copy(&mut frame, palette.ink(terrain));
            let mut place: Vec<u8> = cursor_to((y + 1) as u16, (x + 1) as u16);
            frame.append(&mut place);
            let mut mark: Vec<u8> = glyph(terrain);
            frame.append(&mut mark);
            assert(frame@ == before + cell_drawing(world@, palette@, spot));
            y += 1;
        }
        x += 1;
    }
    frame
}

} // verus!
