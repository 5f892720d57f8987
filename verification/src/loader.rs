//! The map text: lines of symbols separated by blanks, one line per row.

use vstd::prelude::*;
use vstd::arithmetic::div_mod::{
    lemma_div_pos_is_pos, lemma_fundamental_div_mod, lemma_mod_pos_bound,
    lemma_multiply_divide_lt,
};
use vstd::slice::slice_subrange;
use crate::geometry::Point;
use crate::terrain::{terrain_of_symbol, Terrain};
use crate::world::{Grid, World};

verus! {

/// The byte that ends a line.
pub const LINE_FEED: u8 = 0x0a;

/// Why a map text cannot be turned into a world.
#[derive(Debug, Clone, Copy, PartialEq, Eq, Structural)]
pub enum LoadError {
    /// The text holds no symbol at all.
    Empty,
    /// Two rows hold different numbers of cells.
    Ragged,
    /// The map has more rows or columns than a coordinate can count.
    TooLarge,
}

/// Bytes that separate the symbols of a line: space, tab, vertical tab, form
/// feed and carriage return.
pub open spec fn is_blank(b: u8) -> bool {
    b == 0x20 || b == 0x09 || b == 0x0b || b == 0x0c || b == 0x0d
}

/// Where the symbol that starts at `from` ends: the first position in
/// `from..to` that holds a blank, or `to`.
pub open spec fn token_end(text: Seq<u8>, from: int, to: int) -> int
    decreases to - from,
{
    if from >= to || is_blank(text[from]) {
        from
    } else {
        token_end(text, from + 1, to)
    }
}

/// The cells that the stretch `from..to` of one line spells out, from left to
/// right: one cell for each maximal run of bytes that are not blank.
pub open spec fn row_cells(text: Seq<u8>, from: int, to: int) -> Seq<Terrain>
    decreases to - from,
{
    if from >= to {
        Seq::empty()
    } else if is_blank(text[from]) {
        row_cells(text, from + 1, to)
    } else {
        proof {
            lemma_token_end_bounds(text, from, to);
        }
        let end = token_end(text, from, to);
        seq![terrain_of_symbol(text.subrange(from, end))] + row_cells(text, end, to)
    }
}

/// Where the line that starts at `from` ends: the first position from `from`
/// on that holds a line feed, or the end of the text.
pub open spec fn line_end(text: Seq<u8>, from: int) -> int
    decreases text.len() - from,
{
    if from >= text.len() || text[from] == LINE_FEED {
        from
    } else {
        line_end(text, from + 1)
    }
}

/// The rows that the text spells out from position `from` on, from top to
/// bottom. A line without any symbol is not a row.
pub open spec fn rows_from(text: Seq<u8>, from: int) -> Seq<Seq<Terrain>>
    decreases text.len() + 1 - from,
{
    if from >= text.len() {
        Seq::empty()
    } else {
        proof {
            lemma_line_end_bounds(text, from);
        }
        let end = line_end(text, from);
        let row = row_cells(text, from, end);
        if row.len() == 0 {
            rows_from(text, end + 1)
        } else {
            seq![row] + rows_from(text, end + 1)
        }
    }
}

/// Whether all rows hold as many cells as the first.
pub open spec fn uniform(rows: Seq<Seq<Terrain>>) -> bool {
    forall|i: int| 0 <= i < rows.len() ==> (#[trigger] rows[i]).len() == rows[0].len()
}

/// Position of the last tee among `cells`, or -1 where there is none.
pub open spec fn last_tee(cells: Seq<Terrain>) -> int
    decreases cells.len(),
{
    if cells.len() == 0 {
        -1
    } else if cells.last() == Terrain::Start(0) {
        cells.len() - 1
    } else {
        last_tee(cells.drop_last())
    }
}

/// The cell the ball starts from in a grid of the given width: the last tee
/// in reading order, or the top left cell where the map marks none.
pub open spec fn tee_of(cells: Seq<Terrain>, width: int) -> Point {
    let k = last_tee(cells);
    if k < 0 {
        Point { x: 0, y: 0 }
    } else {
        Point { x: (k / width) as i32, y: (k % width) as i32 }
    }
}

/// What a map text means: the grid it spells out, or the reason why it
/// spells out none.
pub open spec fn parse_map(text: Seq<u8>) -> Result<Grid, LoadError> {
    let rows = rows_from(text, 0);
    if rows.len() == 0 {
        Err(LoadError::Empty)
    } else if !uniform(rows) {
        Err(LoadError::Ragged)
    } else if rows.len() > i32::MAX || rows[0].len() > i32::MAX {
        Err(LoadError::TooLarge)
    } else {
        let cells = rows.flatten();
        Ok(
            Grid {
                width: rows[0].len() as int,
                height: rows.len() as int,
                start: tee_of(cells, rows[0].len() as int),
                cells,
            },
        )
    }
}

/// A symbol ends inside the stretch it was looked for in, and is not empty
/// where the stretch starts with a byte that is not blank.
pub proof fn lemma_token_end_bounds(text: Seq<u8>, from: int, to: int)
    requires
        from <= to,
    ensures
        from <= token_end(text, from, to) <= to,
        from < to && !is_blank(text[from]) ==> from < token_end(text, from, to),
        forall|i: int| from <= i < token_end(text, from, to) ==> !is_blank(#[trigger] text[i]),
    decreases to - from,
{
    if from < to && !is_blank(text[from]) {
        lemma_token_end_bounds(text, from + 1, to);
    }
}

/// A line ends at or after the position it starts at, within the text.
pub proof fn lemma_line_end_bounds(text: Seq<u8>, from: int)
    requires
        from <= text.len(),
    ensures
        from <= line_end(text, from) <= text.len(),
    decreases text.len() - from,
{
    if from < text.len() && text[from] != LINE_FEED {
        lemma_line_end_bounds(text, from + 1);
    }
}

fn blank(b: u8) -> (r: bool)
    ensures
        r == is_blank(b),
{
    b == 0x20 || b == 0x09 || b == 0x0b || b == 0x0c || b == 0x0d
}

fn find_token_end(text: &[u8], from: usize, to: usize) -> (end: usize)
    requires
        from <= to <= text@.len(),
    ensures
        end == token_end(text@, from as int, to as int),
        from <= end <= to,
{
    let mut i: usize = from;
    while i < to && !blank(text[i])
        invariant
            from <= i <= to <= text@.len(),
            token_end(text@, from as int, to as int) == token_end(text@, i as int, to as int),
        decreases to - i,
    {
        i += 1;
    }
    i
}

fn find_line_end(text: &[u8], from: usize) -> (end: usize)
    requires
        from <= text@.len(),
    ensures
        end == line_end(text@, from as int),
        from <= end <= text@.len(),
{
    let mut i: usize = from;
    while i < text.len() && text[i] != LINE_FEED
        invariant
            from <= i <= text@.len(),
            line_end(text@, from as int) == line_end(text@, i as int),
        decreases text@.len() - i,
    {
        i += 1;
    }
    i
}

/// Appends the cells of one line to `cells`.
fn parse_row(text: &[u8], from: usize, to: usize, cells: &mut Vec<Terrain>)
    requires
        from <= to <= text@.len(),
    ensures
        final(cells)@ == old(cells)@ + row_cells(text@, from as int, to as int),
{
    let ghost before = cells@;
    let ghost whole = row_cells(text@, from as int, to as int);
    let mut i: usize = from;
    while i < to
        invariant
            from <= i <= to <= text@.len(),
            cells@ + row_cells(text@, i as int, to as int) == before + whole,
        decreases to - i,
    {
        if blank(text[i]) {
            i += 1;
        } else {
            let end: usize = find_token_end(text, i, to);
            proof {
                lemma_token_end_bounds(text@, i as int, to as int);
            }
            let token = slice_subrange(text, i, end);
            let ghost shorter = cells@;
            cells.push(Terrain::from_symbol(token));
            assert(cells@ + row_cells(text@, end as int, to as int) =~= shorter + row_cells(
                text@,
                i as int,
                to as int,
            ));
            i = end;
        }
    }
}

/// Rows of equal length, laid end to end, put the cell of row `r` and column
/// `c` at position `r * w + c`.
pub proof fn lemma_flatten_uniform(rows: Seq<Seq<Terrain>>, w: int)
    requires
        forall|i: int| 0 <= i < rows.len() ==> (#[trigger] rows[i]).len() == w,
    ensures
        rows.flatten().len() == rows.len() * w,
        forall|r: int, c: int|
            0 <= r < rows.len() && 0 <= c < w ==> rows.flatten()[r * w + c] == #[trigger] rows[r][c],
    decreases rows.len(),
{
    if rows.len() > 0 {
        let init = rows.drop_last();
        let last = rows.last();
        let n = rows.len() as int;
        lemma_flatten_uniform(init, w);
        assert(rows =~= init.push(last));
        init.lemma_flatten_push(last);
        assert((n - 1) * w + w == n * w) by (nonlinear_arith);
        assert forall|r: int, c: int| 0 <= r < rows.len() && 0 <= c < w implies rows.flatten()[r * w
            + c] == #[trigger] rows[r][c] by {
            if r < n - 1 {
                assert(0 <= r * w && r * w + w <= (n - 1) * w) by (nonlinear_arith)
                    requires
                        0 <= r < n - 1,
                        0 <= c < w,
                ;
            }
        }
    } else {
        assert(rows.len() * w == 0) by (nonlinear_arith)
            requires
                rows.len() == 0,
        ;
    }
}

/// The last tee, where there is one, is the position of a tee.
pub proof fn lemma_last_tee(cells: Seq<Terrain>)
    ensures
        -1 <= last_tee(cells) < cells.len(),
        last_tee(cells) >= 0 ==> cells[last_tee(cells)] == Terrain::Start(0),
        forall|i: int| last_tee(cells) < i < cells.len() ==> #[trigger] cells[i] != Terrain::Start(0),
    decreases cells.len(),
{
    if cells.len() > 0 && cells.last() != Terrain::Start(0) {
        let init = cells.drop_last();
        lemma_last_tee(init);
        assert forall|i: int| last_tee(cells) < i < cells.len() implies #[trigger] cells[i]
            != Terrain::Start(0) by {
            if i < init.len() {
                assert(init[i] == cells[i]);
            }
        }
    }
}

/// Every row of a text holds at least one cell.
pub proof fn lemma_rows_hold_cells(text: Seq<u8>, from: int)
    ensures
        forall|i: int|
            0 <= i < rows_from(text, from).len() ==> (#[trigger] rows_from(text, from)[i]).len() > 0,
    decreases text.len() + 1 - from,
{
    if from < text.len() {
        lemma_line_end_bounds(text, from);
        let end = line_end(text, from);
        let rest = rows_from(text, end + 1);
        lemma_rows_hold_cells(text, end + 1);
        if row_cells(text, from, end).len() > 0 {
            assert forall|i: int| 0 <= i < rows_from(text, from).len() implies (
            #[trigger] rows_from(text, from)[i]).len() > 0 by {
                if i > 0 {
                    assert(rows_from(text, from)[i] == rest[i - 1]);
                }
            }
        }
    }
}

/// The start of a rectangle of cells lies inside it.
pub proof fn lemma_tee_in_bounds(cells: Seq<Terrain>, width: int, height: int)
    requires
        0 < width <= i32::MAX,
        0 < height <= i32::MAX,
        cells.len() == width * height,
    ensures
        0 <= tee_of(cells, width).x < height,
        0 <= tee_of(cells, width).y < width,
        last_tee(cells) >= 0 ==> tee_of(cells, width).x * width + tee_of(cells, width).y
            == last_tee(cells),
{
    lemma_last_tee(cells);
    let k = last_tee(cells);
    if k >= 0 {
        lemma_multiply_divide_lt(k, width, height);
        lemma_div_pos_is_pos(k, width);
        lemma_mod_pos_bound(k, width);
        lemma_fundamental_div_mod(k, width);
        assert(width * (k / width) == (k / width) * width) by (nonlinear_arith);
    }
}

/// Every map text that loads gives a rectangle: the grid holds exactly
/// `width * height` cells, the text has `height` rows, and each of them holds
/// `width` cells.
pub proof fn lemma_loaded_grid_is_rectangular(text: Seq<u8>)
    requires
        parse_map(text) is Ok,
    ensures
        parse_map(text)->Ok_0.wf(),
        parse_map(text)->Ok_0.cells.len() == parse_map(text)->Ok_0.width * parse_map(
            text,
        )->Ok_0.height,
        rows_from(text, 0).len() == parse_map(text)->Ok_0.height,
        forall|i: int|
            0 <= i < rows_from(text, 0).len() ==> (#[trigger] rows_from(text, 0)[i]).len()
                == parse_map(text)->Ok_0.width,
{
    let rows = rows_from(text, 0);
    let w = rows[0].len() as int;
    let h = rows.len() as int;
    lemma_rows_hold_cells(text, 0);
    lemma_flatten_uniform(rows, w);
    assert(h * w == w * h) by (nonlinear_arith);
    lemma_tee_in_bounds(rows.flatten(), w, h);
}

/// Loading keeps the layout of the text: the cell at row `x` and column `y`
/// of the grid is the `y`-th symbol of the `x`-th row of the text.
pub proof fn lemma_loaded_grid_keeps_layout(text: Seq<u8>, p: Point)
    requires
        parse_map(text) is Ok,
        parse_map(text)->Ok_0.in_bounds(p),
    ensures
        parse_map(text)->Ok_0.terrain_at(p) == rows_from(text, 0)[p.x as int][p.y as int],
{
    let rows = rows_from(text, 0);
    lemma_flatten_uniform(rows, rows[0].len() as int);
}

/// Where a map marks a tee, the ball starts on the last tee in reading
/// order; where it marks none, no cell is a tee and the ball starts in the
/// top left cell.
pub proof fn lemma_start_is_the_last_tee(text: Seq<u8>)
    requires
        parse_map(text) is Ok,
    ensures
        ({
            let g = parse_map(text)->Ok_0;
            if last_tee(g.cells) >= 0 {
                &&& g.index_of(g.start) == last_tee(g.cells)
                &&& g.terrain_at(g.start) == Terrain::Start(0)
                &&& forall|i: int|
                    g.index_of(g.start) < i < g.cells.len() ==> #[trigger] g.cells[i]
                        != Terrain::Start(0)
            } else {
                &&& g.start == Point { x: 0, y: 0 }
                &&& forall|i: int| 0 <= i < g.cells.len() ==> #[trigger] g.cells[i] != Terrain::Start(0)
            }
        }),
{
    let g = parse_map(text)->Ok_0;
    lemma_loaded_grid_is_rectangular(text);
    lemma_last_tee(g.cells);
    lemma_tee_in_bounds(g.cells, g.width, g.height);
}

fn find_last_tee(cells: &Vec<Terrain>) -> (found: Option<usize>)
    ensures
        match found {
            Some(k) => k == last_tee(cells@),
            None => last_tee(cells@) == -1,
        },
{
    let mut found: Option<usize> = None;
    let mut i: usize = 0;
    while i < cells.len()
        invariant
            i <= cells@.len(),
            match found {
                Some(k) => k == last_tee(cells@.take(i as int)),
                None => last_tee(cells@.take(i as int)) == -1,
            },
        decreases cells@.len() - i,
    {
        let is_tee: bool = match cells[i] {
            Terrain::Start(n) => n == 0,
            _ => false,
        };
        proof {
            assert(cells@.take(i + 1).drop_last() =~= cells@.take(i as int));
        }
        if is_tee {
            found = Some(i);
        }
        i += 1;
    }
    proof {
        assert(cells@.take(i as int) =~= cells@);
    }
    found
}

impl World {
    /// Reads a map text. Each line that holds at least one symbol is a row,
    /// each symbol a cell; the ball starts on the last tee, or in the top left
    /// cell where no tee is marked. The text is refused where it holds no
    /// symbol, where two rows differ in length, and where it has more rows or
    /// columns than a coordinate can count.
    pub fn load(text: &[u8]) -> (result: Result<World, LoadError>)
        ensures
            match result {
                Ok(world) => parse_map(text@) == Ok::<Grid, LoadError>(world@) && world@.wf(),
                Err(e) => parse_map(text@) == Err::<Grid, LoadError>(e),
            },
    {
        let mut cells: Vec<Terrain> = Vec::new();
        let mut width: usize = 0;
        let mut height: usize = 0;
        let mut pos: usize = 0;
        let ghost mut done: Seq<Seq<Terrain>> = Seq::empty();
        while pos < text.len()
            invariant
                pos <= text@.len(),
                done + rows_from(text@, pos as int) == rows_from(text@, 0),
                cells@ == done.flatten(),
                height == done.len(),
                height <= pos,
                forall|i: int| 0 <= i < done.len() ==> (#[trigger] done[i]).len() == width,
            decreases text@.len() - pos,
        {
            let end: usize = find_line_end(text, pos);
            let before: usize = cells.len();
            parse_row(text, pos, end, &mut cells);
            let count: usize = cells.len() - before;
            let ghost row = row_cells(text@, pos as int, end as int);
            let ghost rest = rows_from(text@, end + 1);
            if count > 0 {
                assert(done + (seq![row] + rest) == rows_from(text@, 0));
                if height == 0 {
                    width = count;
                } else if count != width {
                    proof {
                        let rows = rows_from(text@, 0);
                        assert(rows[height as int] == row);
                    }
                    return Err(LoadError::Ragged);
                }
                proof {
                    done.lemma_flatten_push(row);
                    assert(done.push(row) + rest =~= done + (seq![row] + rest));
                    done = done.push(row);
                }
                height += 1;
            }
            if end < text.len() {
                pos = end + 1;
            } else {
                pos = end;
            }
        }
        if height == 0 {
            return Err(LoadError::Empty);
        }
        if height > i32::MAX as usize || width > i32::MAX as usize {
            return Err(LoadError::TooLarge);
        }
        let start: Point = match find_last_tee(&cells) {
            Some(k) => {
                proof {
                    lemma_flatten_uniform(done, width as int);
                    lemma_tee_in_bounds(cells@, width as int, height as int);
                }
                Point { x: (k / width) as i32, y: (k % width) as i32 }
            },
            None => Point { x: 0, y: 0 },
        };
        proof {
            lemma_loaded_grid_is_rectangular(text@);
        }
        Ok(World::assemble(width as i32, height as i32, start, cells))
    }
}


} // verus!
