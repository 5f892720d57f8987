//! Where a struck ball comes to rest: the flight, then the slopes.

use vstd::prelude::*;
use vstd::arithmetic::div_mod::lemma_fundamental_div_mod_converse;
use vstd::set_lib::{lemma_int_range, lemma_len_subset, lemma_map_size_bound, set_int_range};
use crate::geometry::{flight, flight_col, flight_fits, flight_row, Action, Direction, Point};
use crate::terrain::Terrain;
use crate::world::{Grid, World};

verus! {

/// The point one step from `p` in direction `d`.
pub open spec fn step(p: Point, d: Direction) -> Point {
    Point { x: (p.x + d.row_step()) as i32, y: (p.y + d.col_step()) as i32 }
}

/// The cells of the grid that a rolling ball has not been on yet.
pub open spec fn unseen(g: Grid, seen: Set<Point>) -> Set<Point> {
    Set::new(|p: Point| g.in_bounds(p) && !seen.contains(p))
}

/// Where a ball on the cell `pos` comes to rest when it has already been on
/// the cells `seen`. On a slope it rolls one step: off the grid it is lost
/// (`None`); onto a cell it has been on before it does not go, and rests
/// where it is; otherwise it rolls on from the next cell. On any other
/// terrain it rests.
pub open spec fn chain_from(g: Grid, pos: Point, seen: Set<Point>) -> Option<Point>
    decreases unseen(g, seen).len(),
    when g.wf()
    via chain_from_decreases
{
    match g.terrain_at(pos) {
        Terrain::Slope(d) => {
            let next = step(pos, d);
            if !g.in_bounds(next) {
                None
            } else if seen.contains(next) {
                Some(pos)
            } else {
                chain_from(g, next, seen.insert(next))
            }
        },
        _ => Some(pos),
    }
}

/// The number of steps that the ball rolls in `chain_from`.
pub open spec fn chain_steps(g: Grid, pos: Point, seen: Set<Point>) -> nat
    decreases unseen(g, seen).len(),
    when g.wf()
    via chain_steps_decreases
{
    match g.terrain_at(pos) {
        Terrain::Slope(d) => {
            let next = step(pos, d);
            if !g.in_bounds(next) {
                1
            } else if seen.contains(next) {
                0
            } else {
                1 + chain_steps(g, next, seen.insert(next))
            }
        },
        _ => 0,
    }
}

/// The cells that the ball has been on when the roll of `chain_from` ends.
pub open spec fn track_from(g: Grid, pos: Point, seen: Set<Point>) -> Set<Point>
    decreases unseen(g, seen).len(),
    when g.wf()
    via track_from_decreases
{
    match g.terrain_at(pos) {
        Terrain::Slope(d) => {
            let next = step(pos, d);
            if !g.in_bounds(next) || seen.contains(next) {
                seen
            } else {
                track_from(g, next, seen.insert(next))
            }
        },
        _ => seen,
    }
}

/// Where a ball that comes down on `pos` comes to rest: `None` where it comes
/// down outside the grid or rolls off it, otherwise the first cell of its
/// way down the slopes that is no slope, or from which the next step would
/// lead back onto its own track.
pub open spec fn resting_cell(g: Grid, pos: Point) -> Option<Point> {
    if g.in_bounds(pos) {
        chain_from(g, pos, set![pos])
    } else {
        None
    }
}

/// Where a shot played from `origin` comes to rest: the flight, then the
/// slopes. A ball that flies off the grid is lost.
pub open spec fn landing_cell(g: Grid, origin: Point, action: Action) -> Option<Point> {
    let row = flight_row(origin, action);
    let col = flight_col(origin, action);
    if 0 <= row < g.height && 0 <= col < g.width {
        resting_cell(g, Point { x: row as i32, y: col as i32 })
    } else {
        None
    }
}

#[via_fn]
proof fn chain_from_decreases(g: Grid, pos: Point, seen: Set<Point>) {
    if let Terrain::Slope(d) = g.terrain_at(pos) {
        let next = step(pos, d);
        if g.in_bounds(next) && !seen.contains(next) {
            lemma_unseen_shrinks(g, seen, next);
        }
    }
}

#[via_fn]
proof fn chain_steps_decreases(g: Grid, pos: Point, seen: Set<Point>) {
    if let Terrain::Slope(d) = g.terrain_at(pos) {
        let next = step(pos, d);
        if g.in_bounds(next) && !seen.contains(next) {
            lemma_unseen_shrinks(g, seen, next);
        }
    }
}

#[via_fn]
proof fn track_from_decreases(g: Grid, pos: Point, seen: Set<Point>) {
    if let Terrain::Slope(d) = g.terrain_at(pos) {
        let next = step(pos, d);
        if g.in_bounds(next) && !seen.contains(next) {
            lemma_unseen_shrinks(g, seen, next);
        }
    }
}

/// There are at most `width * height` cells that a ball has not been on.
pub proof fn lemma_unseen_bounded(g: Grid, seen: Set<Point>)
    requires
        g.wf(),
    ensures
        unseen(g, seen).finite(),
        unseen(g, seen).len() <= g.width * g.height,
{
    let w = g.width;
    let n = g.width * g.height;
    let places = set_int_range(0, n);
    let cell_at = |k: int| Point { x: (k / w) as i32, y: (k % w) as i32 };
    let cells = places.map(cell_at);
    lemma_int_range(0, n);
    lemma_map_size_bound(places, cells, cell_at);
    assert forall|p: Point| unseen(g, seen).contains(p) implies cells.contains(p) by {
        let k = g.index_of(p);
        g.lemma_index_in_range(p);
        lemma_fundamental_div_mod_converse(k, w, p.x as int, p.y as int);
        assert(places.contains(k) && cell_at(k) == p);
    }
    lemma_len_subset(unseen(g, seen), cells);
}

/// A cell that the ball rolls onto for the first time is one cell less that
/// it has not been on.
pub proof fn lemma_unseen_shrinks(g: Grid, seen: Set<Point>, next: Point)
    requires
        g.wf(),
        g.in_bounds(next),
        !seen.contains(next),
    ensures
        unseen(g, seen).finite(),
        unseen(g, seen.insert(next)).len() + 1 == unseen(g, seen).len(),
{
    lemma_unseen_bounded(g, seen);
    assert(unseen(g, seen.insert(next)) =~= unseen(g, seen).remove(next));
}

/// A ball that comes to rest rests on a cell of the grid.
pub proof fn lemma_chain_rests_inside(g: Grid, pos: Point, seen: Set<Point>)
    requires
        g.wf(),
        g.in_bounds(pos),
    ensures
        chain_from(g, pos, seen) matches Some(p) ==> g.in_bounds(p),
    decreases unseen(g, seen).len(),
{
    if let Terrain::Slope(d) = g.terrain_at(pos) {
        let next = step(pos, d);
        if g.in_bounds(next) && !seen.contains(next) {
            lemma_unseen_shrinks(g, seen, next);
            lemma_chain_rests_inside(g, next, seen.insert(next));
        }
    }
}

/// A ball that comes to rest rests on a cell of its track. Where that cell
/// is a slope, the next step would lead onto a cell of the grid that the
/// ball has been on before.
pub proof fn lemma_chain_rests_on_track(g: Grid, pos: Point, seen: Set<Point>)
    requires
        g.wf(),
        g.in_bounds(pos),
        seen.contains(pos),
    ensures
        seen.subset_of(track_from(g, pos, seen)),
        chain_from(g, pos, seen) matches Some(p) ==> {
            &&& track_from(g, pos, seen).contains(p)
            &&& g.terrain_at(p) matches Terrain::Slope(d) ==> g.in_bounds(step(p, d))
                && track_from(g, pos, seen).contains(step(p, d))
        },
    decreases unseen(g, seen).len(),
{
    if let Terrain::Slope(d) = g.terrain_at(pos) {
        let next = step(pos, d);
        if g.in_bounds(next) && !seen.contains(next) {
            lemma_unseen_shrinks(g, seen, next);
            lemma_chain_rests_on_track(g, next, seen.insert(next));
        }
    }
}

/// Rolling down the slopes ends off the slopes or closes a ring: a ball
/// that comes down on a cell that is no slope rests there, and a ball that
/// comes to rest on a slope would next roll onto its own track.
pub proof fn lemma_rest_is_off_the_slopes_or_closes_a_ring(g: Grid, pos: Point)
    requires
        g.wf(),
        g.in_bounds(pos),
    ensures
        !(g.terrain_at(pos) is Slope) ==> resting_cell(g, pos) == Some(pos),
        resting_cell(g, pos) matches Some(p) ==> {
            &&& g.in_bounds(p)
            &&& g.terrain_at(p) matches Terrain::Slope(d) ==> g.in_bounds(step(p, d))
                && track_from(g, pos, set![pos]).contains(step(p, d))
        },
{
    lemma_chain_rests_on_track(g, pos, set![pos]);
    lemma_chain_rests_inside(g, pos, set![pos]);
}

/// A shot that comes to rest rests on a cell of the grid.
pub proof fn lemma_landing_rests_inside(g: Grid, origin: Point, action: Action)
    requires
        g.wf(),
    ensures
        landing_cell(g, origin, action) matches Some(p) ==> g.in_bounds(p),
{
    let row = flight_row(origin, action);
    let col = flight_col(origin, action);
    if 0 <= row < g.height && 0 <= col < g.width {
        let pos = Point { x: row as i32, y: col as i32 };
        lemma_chain_rests_inside(g, pos, set![pos]);
    }
}

/// The ball rolls at most one step for each cell it has not been on, and
/// one more where the last step takes it off the grid.
pub proof fn lemma_chain_steps_bounded(g: Grid, pos: Point, seen: Set<Point>)
    requires
        g.wf(),
        g.in_bounds(pos),
    ensures
        chain_steps(g, pos, seen) <= unseen(g, seen).len() + 1,
    decreases unseen(g, seen).len(),
{
    if let Terrain::Slope(d) = g.terrain_at(pos) {
        let next = step(pos, d);
        if g.in_bounds(next) && !seen.contains(next) {
            lemma_unseen_shrinks(g, seen, next);
            lemma_chain_steps_bounded(g, next, seen.insert(next));
        }
    }
}

/// Rolling down the slopes ends: from whatever cell the ball starts, it
/// comes to rest or leaves the grid after at most `width * height` steps.
pub proof fn lemma_chain_terminates(g: Grid, pos: Point)
    requires
        g.wf(),
        g.in_bounds(pos),
    ensures
        chain_steps(g, pos, set![pos]) <= g.width * g.height,
{
    let none = Set::<Point>::empty();
    lemma_chain_steps_bounded(g, pos, set![pos]);
    lemma_unseen_bounded(g, none);
    lemma_unseen_shrinks(g, none, pos);
}

/// The same shot over the same grid comes to rest in the same place: the
/// resting place depends on nothing but the grid, the origin and the action.
pub proof fn lemma_resolve_shot_deterministic(
    first: World,
    second: World,
    origin: Point,
    action: Action,
    first_rest: Option<Point>,
    second_rest: Option<Point>,
)
    requires
        first@ == second@,
        first_rest == landing_cell(first@, origin, action),
        second_rest == landing_cell(second@, origin, action),
    ensures
        first_rest == second_rest,
{
}

/// Resolving a shot is resolving the slopes from where the flight ends.
pub proof fn lemma_landing_is_flight_then_chain(g: Grid, origin: Point, action: Action)
    requires
        g.wf(),
        flight_fits(origin, action),
    ensures
        landing_cell(g, origin, action) == resting_cell(
            g,
            Point { x: flight_row(origin, action) as i32, y: flight_col(origin, action) as i32 },
        ),
{
}

/// The point one step from `p` in direction `d`, for a point that is not on
/// the rim of what a coordinate can count.
fn stepped(p: &Point, d: Direction) -> (next: Point)
    requires
        0 <= p.x < i32::MAX,
        0 <= p.y < i32::MAX,
    ensures
        next == step(*p, d),
{
    let delta: Point = d.delta();
    Point { x: p.x + delta.x, y: p.y + delta.y }
}

/// Where a ball that comes down on `coord` comes to rest. It follows the
/// slopes cell by cell until it reaches a cell that is no slope; it stops
/// before a step that would lead it back onto its own track, and it is lost
/// (`None`) where it comes down outside the grid or a slope sends it there.
/// The ball rolls `chain_steps` steps, one for each turn of the loop, and
/// these are never more than there are cells.
pub fn land(coord: &Point, world: &World) -> (rest: Option<Point>)
    requires
        world@.wf(),
    ensures
        rest == resting_cell(world@, *coord),
        rest matches Some(p) ==> {
            &&& world@.in_bounds(p)
            &&& world@.terrain_at(p) matches Terrain::Slope(d) ==> track_from(
                world@,
                *coord,
                set![*coord],
            ).contains(step(p, d))
        },
        world@.in_bounds(*coord) ==> chain_steps(world@, *coord, set![*coord])
            <= world@.width * world@.height,
{
    if !world.in_bounds(coord) {
        return None;
    }
    proof {
        lemma_chain_terminates(world@, *coord);
        lemma_rest_is_off_the_slopes_or_closes_a_ring(world@, *coord);
    }
    let cell_count: usize = world.cell_count();
    let mut visited: Vec<bool> = Vec::new();
    while visited.len() < cell_count
        invariant
            visited@.len() <= cell_count,
            forall|i: int| 0 <= i < visited@.len() ==> !visited@[i],
        decreases cell_count - visited@.len(),
    {
        visited.push(false);
    }
    let mut pos: Point = *coord;
    let first: usize = world.cell_index(&pos);
    visited.set(first, true);
    let ghost mut seen: Set<Point> = set![pos];
    let ghost mut rolled: nat = 0;
    proof {
        assert forall|p: Point| world@.in_bounds(p) implies (seen.contains(p) <==> visited@[world@.index_of(
            p,
        )]) by {
            world@.lemma_index_in_range(p);
            if world@.index_of(p) == first {
                world@.lemma_index_injective(p, pos);
            }
        }
        lemma_chain_rests_inside(world@, pos, seen);
    }
    loop
        invariant
            world@.wf(),
            world@.in_bounds(pos),
            visited@.len() == world@.cells.len(),
            forall|p: Point|
                world@.in_bounds(p) ==> (seen.contains(p) <==> visited@[#[trigger] world@.index_of(
                    p,
                )]),
            chain_from(world@, pos, seen) == resting_cell(world@, *coord),
            resting_cell(world@, *coord) matches Some(p) ==> {
                &&& world@.in_bounds(p)
                &&& world@.terrain_at(p) matches Terrain::Slope(d) ==> track_from(
                    world@,
                    *coord,
                    set![*coord],
                ).contains(step(p, d))
            },
            rolled + chain_steps(world@, pos, seen) == chain_steps(
                world@,
                *coord,
                set![*coord],
            ),
            chain_steps(world@, *coord, set![*coord]) <= world@.width * world@.height,
        decreases unseen(world@, seen).len(),
    {
        match *world.get_terrain(&pos) {
            Terrain::Slope(direction) => {
                let next: Point = stepped(&pos, direction);
                if !world.in_bounds(&next) {
                    return None;
                }
                let idx: usize = world.cell_index(&next);
                if visited[idx] {
                    return Some(pos);
                }
                visited.set(idx, true);
                proof {
                    lemma_unseen_shrinks(world@, seen, next);
                    assert forall|p: Point| world@.in_bounds(p) implies (seen.insert(next).contains(
                        p,
                    ) <==> visited@[#[trigger] world@.index_of(p)]) by {
                        world@.lemma_index_in_range(p);
                        if world@.index_of(p) == idx {
                            world@.lemma_index_injective(p, next);
                        }
                    }
                    seen = seen.insert(next);
                    rolled = rolled + 1;
                }
                pos = next;
            },
            _ => {
                return Some(pos);
            },
        }
    }
}

/// Where a shot played from `origin` comes to rest: the flight, then the
/// slopes from the cell where it ends. The ball is lost (`None`) where it
/// flies or rolls off the grid.
pub fn resolve_shot(origin: &Point, action: Action, world: &World) -> (rest: Option<Point>)
    requires
        world@.wf(),
    ensures
        rest == landing_cell(world@, *origin, action),
        rest matches Some(p) ==> world@.in_bounds(p),
{
    let (row, col): (i64, i64) = flight(origin, action);
    if 0 <= row && row < world.height() as i64 && 0 <= col && col < world.width() as i64 {
        land(&Point { x: row as i32, y: col as i32 }, world)
    } else {
        None
    }
}

} // verus!
