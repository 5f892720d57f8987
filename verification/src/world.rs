//! The terrain grid: a rectangle of cells stored row after row.

use vstd::prelude::*;
use crate::geometry::Point;
use crate::terrain::Terrain;

verus! {

/// The mathematical content of a `World`: its dimensions, the tee, and the
/// cells in row-major order.
pub struct Grid {
    pub width: int,
    pub height: int,
    pub start: Point,
    pub cells: Seq<Terrain>,
}

impl Grid {
    /// A grid is well formed when it is a non-empty rectangle whose
    /// coordinates fit a `Point`, holds exactly `width * height` cells, and
    /// has its start inside.
    pub open spec fn wf(self) -> bool {
        &&& 0 < self.width <= i32::MAX
        &&& 0 < self.height <= i32::MAX
        &&& self.cells.len() == self.width * self.height
        &&& self.in_bounds(self.start)
    }

    /// Whether `p` names a cell of the grid.
    pub open spec fn in_bounds(self, p: Point) -> bool {
        0 <= p.x < self.height && 0 <= p.y < self.width
    }

    /// Position of the cell `p` in the row-major cell sequence.
    pub open spec fn index_of(self, p: Point) -> int {
        p.x * self.width + p.y
    }

    /// The terrain of the cell `p`.
    pub open spec fn terrain_at(self, p: Point) -> Terrain {
        self.cells[self.index_of(p)]
    }

    /// The grid with the terrain of the cell `p` replaced by `terrain`.
    pub open spec fn with_terrain(self, p: Point, terrain: Terrain) -> Grid {
        Grid { cells: self.cells.update(self.index_of(p), terrain), ..self }
    }

    /// Every cell of a well-formed grid has its own place in the cell
    /// sequence.
    pub proof fn lemma_index_in_range(self, p: Point)
        requires
            self.wf(),
            self.in_bounds(p),
        ensures
            0 <= self.index_of(p) < self.cells.len(),
    {
        let (w, h, x, y) = (self.width, self.height, p.x as int, p.y as int);
        assert(0 <= x * w && x * w + w <= h * w) by (nonlinear_arith)
            requires
                0 <= x < h,
                0 < w,
        ;
    }

    /// Two different cells never share a place in the cell sequence.
    pub proof fn lemma_index_injective(self, p: Point, q: Point)
        requires
            self.wf(),
            self.in_bounds(p),
            self.in_bounds(q),
            self.index_of(p) == self.index_of(q),
        ensures
            p == q,
    {
        let (w, px, qx) = (self.width, p.x as int, q.x as int);
        if px < qx {
            assert(px * w + w <= qx * w) by (nonlinear_arith)
                requires
                    px < qx,
                    0 < w,
            ;
        } else if qx < px {
            assert(qx * w + w <= px * w) by (nonlinear_arith)
                requires
                    qx < px,
                    0 < w,
            ;
        }
    }

    /// Overwriting one cell keeps the grid well formed, puts the new terrain
    /// in that cell and leaves every other cell as it was.
    pub proof fn lemma_with_terrain(self, p: Point, terrain: Terrain)
        requires
            self.wf(),
            self.in_bounds(p),
        ensures
            self.with_terrain(p, terrain).wf(),
            self.with_terrain(p, terrain).terrain_at(p) == terrain,
            forall|q: Point|
                self.in_bounds(q) && q != p ==> #[trigger] self.with_terrain(p, terrain).terrain_at(
                    q,
                ) == self.terrain_at(q),
    {
        self.lemma_index_in_range(p);
        assert forall|q: Point| self.in_bounds(q) && q != p implies #[trigger] self.with_terrain(
            p,
            terrain,
        ).terrain_at(q) == self.terrain_at(q) by {
            self.lemma_index_in_range(q);
            if self.index_of(p) == self.index_of(q) {
                self.lemma_index_injective(p, q);
            }
        }
    }
}

/// The playing field. Its cells can only be reached through coordinates, so
/// the rectangle stays intact whatever is written into it.
#[derive(Debug)]
pub struct World {
    width: i32,
    height: i32,
    start: Point,
    terrain_map: Vec<Terrain>,
}

impl View for World {
    type V = Grid;

    closed spec fn view(&self) -> Grid {
        Grid {
            width: self.width as int,
            height: self.height as int,
            start: self.start,
            cells: self.terrain_map@,
        }
    }
}

impl Clone for World {
    /// A copy of the world, cell for cell.
    fn clone(&self) -> (copy: World)
        ensures
            copy@ == self@,
    {
        let cells: Vec<Terrain> = self.terrain_map.clone();
        World { width: self.width, height: self.height, start: self.start, terrain_map: cells }
    }
}

impl World {
    /// Puts a world together from its parts.
    pub(crate) fn assemble(width: i32, height: i32, start: Point, cells: Vec<Terrain>) -> (world:
        World)
        ensures
            world@ == (Grid { width: width as int, height: height as int, start, cells: cells@ }),
    {
        World { width, height, start, terrain_map: cells }
    }

    /// Number of columns.
    pub fn width(&self) -> (w: i32)
        ensures
            w == self@.width,
    {
        self.width
    }

    /// Number of rows.
    pub fn height(&self) -> (h: i32)
        ensures
            h == self@.height,
    {
        self.height
    }

    /// The cell the ball starts from.
    pub fn start(&self) -> (p: Point)
        ensures
            p == self@.start,
    {
        self.start
    }

    /// Whether `coord` names a cell of this world.
    pub fn in_bounds(&self, coord: &Point) -> (inside: bool)
        ensures
            inside == self@.in_bounds(*coord),
    {
        0 <= coord.x && coord.x < self.height && 0 <= coord.y && coord.y < self.width
    }

    /// Number of cells.
    pub(crate) fn cell_count(&self) -> (n: usize)
        ensures
            n == self@.cells.len(),
    {
        self.terrain_map.len()
    }

    /// Place of an inside cell in the cell vector.
    pub(crate) fn cell_index(&self, coord: &Point) -> (idx: usize)
        requires
            self@.wf(),
            self@.in_bounds(*coord),
        ensures
            idx == self@.index_of(*coord),
            idx < self@.cells.len(),
    {
        let row: usize = coord.x as usize;
        let col: usize = coord.y as usize;
        let width: usize = self.width as usize;
        proof {
            self@.lemma_index_in_range(*coord);
            assert(0 <= row * width) by (nonlinear_arith)
                requires
                    0 <= row,
                    0 < width,
            ;
            assert(self@.cells.len() == self.terrain_map.len());
        }
        row * width + col
    }

    /// The terrain of the cell at `coord`.
    pub fn get_terrain(&self, coord: &Point) -> (terrain: &Terrain)
        requires
            self@.wf(),
            self@.in_bounds(*coord),
        ensures
            *terrain == self@.terrain_at(*coord),
    {
        let idx: usize = self.cell_index(coord);
        &self.terrain_map[idx]
    }

    /// The terrain of the cell at `coord`, or `None` where `coord` lies
    /// outside the grid.
    pub fn terrain_at(&self, coord: &Point) -> (terrain: Option<Terrain>)
        requires
            self@.wf(),
        ensures
            terrain == if self@.in_bounds(*coord) {
                Some(self@.terrain_at(*coord))
            } else {
                None
            },
    {
        if self.in_bounds(coord) {
            Some(*self.get_terrain(coord))
        } else {
            None
        }
    }

    /// Overwrites the terrain of the cell at `coord`; nothing else changes.
    pub fn set_terrain(&mut self, coord: &Point, terrain: Terrain)
        requires
            old(self)@.wf(),
            old(self)@.in_bounds(*coord),
        ensures
            final(self)@ == old(self)@.with_terrain(*coord, terrain),
            final(self)@.wf(),
    {
        let idx: usize = self.cell_index(coord);
        self.terrain_map.set(idx, terrain);
        proof {
            old(self)@.lemma_with_terrain(*coord, terrain);
        }
    }
}

} // verus!
