//! One game: the ball, the stroke count, and what a turn does to them.

use vstd::prelude::*;
use crate::geometry::{Action, Point};
use crate::input::{ClubReply, DirectionReply};
use crate::resolve::{landing_cell, lemma_landing_rests_inside, resolve_shot};
use crate::terrain::Terrain;
use crate::world::{Grid, World};

verus! {

/// Where a game stands between two turns.
#[derive(Debug, Clone, Copy, PartialEq, Eq, Structural)]
pub enum Phase {
    /// The next shot is awaited.
    AwaitingShot,
    /// The ball is in the hole: the game is won and over.
    Holed,
    /// The player has left the game.
    Aborted,
}

/// Why a shot has to be played again.
#[derive(Debug, Clone, Copy, PartialEq, Eq, Structural)]
pub enum Hazard {
    Water,
    Tree,
    /// The ball left the grid.
    OffMap,
}

/// What a turn came to.
#[derive(Debug, Clone, Copy, PartialEq, Eq, Structural)]
pub enum Outcome {
    /// The ball is in the hole, after this many strokes.
    Holed(u8),
    /// The shot ended in a hazard and does not count.
    Redo(Hazard),
    /// The ball lies on a new cell and the stroke is counted.
    Advanced,
    /// The input was not recognised: the turn starts again.
    Reprompt,
    /// The player has left the game.
    Aborted,
}

/// The mathematical content of a `Session`.
pub struct Game {
    pub grid: Grid,
    pub ball: Point,
    pub strokes: u8,
    pub phase: Phase,
}

/// What the terrain under the ball adds to the strength of a shot.
pub open spec fn strength_modifier(terrain: Terrain) -> int {
    match terrain {
        Terrain::Sand => -1,
        Terrain::Fairway => 1,
        _ => 0,
    }
}

/// The strength of a shot played from `terrain` after a roll of `roll`: the
/// roll plus what the terrain adds, but never less than one.
pub open spec fn effective_strength_of(roll: int, terrain: Terrain) -> int {
    if roll + strength_modifier(terrain) < 1 {
        1
    } else {
        roll + strength_modifier(terrain)
    }
}

/// What a shot comes to when the ball comes to rest on `landing`, or is lost
/// (`None`), in a game where `strokes` is the number of the stroke played.
pub open spec fn verdict(landing: Option<Terrain>, strokes: u8) -> Outcome {
    match landing {
        None => Outcome::Redo(Hazard::OffMap),
        Some(Terrain::Hole) => Outcome::Holed(strokes),
        Some(Terrain::Water) => Outcome::Redo(Hazard::Water),
        Some(Terrain::Tree) => Outcome::Redo(Hazard::Tree),
        Some(_) => Outcome::Advanced,
    }
}

impl Game {
    /// A game is well formed when its grid is, the ball lies on the grid,
    /// and the stroke count is at least one.
    pub open spec fn wf(self) -> bool {
        &&& self.grid.wf()
        &&& self.grid.in_bounds(self.ball)
        &&& self.strokes >= 1
    }

    /// The game at its start: the ball on the start cell, the first stroke
    /// to be played.
    pub open spec fn opening(grid: Grid) -> Game {
        Game { grid, ball: grid.start, strokes: 1, phase: Phase::AwaitingShot }
    }

    /// The terrain on which a shot comes to rest, `None` where the ball is
    /// lost.
    pub open spec fn landing_terrain(self, action: Action) -> Option<Terrain> {
        match landing_cell(self.grid, self.ball, action) {
            Some(spot) => Some(self.grid.terrain_at(spot)),
            None => None,
        }
    }

    /// What the shot `action` comes to. A game that is over stays over.
    pub open spec fn shot_outcome(self, action: Action) -> Outcome {
        match self.phase {
            Phase::Holed => Outcome::Holed(self.strokes),
            Phase::Aborted => Outcome::Aborted,
            Phase::AwaitingShot => verdict(self.landing_terrain(action), self.strokes),
        }
    }

    /// The game after the shot `action`. In the hole the game is won and the
    /// ball is left where it was struck; after a hazard nothing has changed;
    /// anywhere else the cell where the ball came to rest is marked with the
    /// number of the stroke, the ball lies there, and the stroke is counted.
    pub open spec fn after_shot(self, action: Action) -> Game {
        match self.shot_outcome(action) {
            Outcome::Holed(_) => Game { phase: Phase::Holed, ..self },
            Outcome::Advanced => {
                let spot = landing_cell(self.grid, self.ball, action)->Some_0;
                Game {
                    grid: self.grid.with_terrain(spot, Terrain::Start(self.strokes)),
                    ball: spot,
                    strokes: (self.strokes + 1) as u8,
                    phase: Phase::AwaitingShot,
                }
            },
            _ => self,
        }
    }

    /// The strength of the shot that follows a roll of `roll`.
    pub open spec fn strength(self, roll: i32) -> i32 {
        effective_strength_of(roll as int, self.grid.terrain_at(self.ball)) as i32
    }

    /// The shot that the player's two answers ask for, if they ask for one.
    pub open spec fn chosen_action(self, roll: i32, direction: DirectionReply, club: ClubReply)
        -> Option<Action> {
        match (direction, club) {
            (DirectionReply::Chosen(d), ClubReply::Chosen(c)) => Some(
                c.action_spec(d, self.strength(roll)),
            ),
            _ => None,
        }
    }

    /// Whether the player's answers end the game: an empty answer to the
    /// question for the direction, or, once a direction is chosen, to the
    /// question for the club.
    pub open spec fn quits(direction: DirectionReply, club: ClubReply) -> bool {
        direction == DirectionReply::Quit || (direction is Chosen && club == ClubReply::Quit)
    }

    /// What a turn comes to. A game that is over stays over; an empty answer
    /// ends the game; an answer that is not recognised starts the turn again;
    /// otherwise the shot is played.
    pub open spec fn turn_outcome(self, roll: i32, direction: DirectionReply, club: ClubReply)
        -> Outcome {
        match self.phase {
            Phase::Holed => Outcome::Holed(self.strokes),
            Phase::Aborted => Outcome::Aborted,
            Phase::AwaitingShot => if Self::quits(direction, club) {
                Outcome::Aborted
            } else {
                match self.chosen_action(roll, direction, club) {
                    Some(action) => self.shot_outcome(action),
                    None => Outcome::Reprompt,
                }
            },
        }
    }

    /// The game after a turn.
    pub open spec fn after_turn(self, roll: i32, direction: DirectionReply, club: ClubReply)
        -> Game {
        if self.phase != Phase::AwaitingShot {
            self
        } else if Self::quits(direction, club) {
            Game { phase: Phase::Aborted, ..self }
        } else {
            match self.chosen_action(roll, direction, club) {
                Some(action) => self.after_shot(action),
                None => self,
            }
        }
    }
}

/// A shot that ends in the hole wins the game: the game is then over, and
/// the ball, the stroke count and the grid are as they were before the shot.
pub proof fn lemma_hole_ends_game(game: Game, action: Action)
    requires
        game.wf(),
        game.phase == Phase::AwaitingShot,
        game.landing_terrain(action) == Some(Terrain::Hole),
    ensures
        game.shot_outcome(action) == Outcome::Holed(game.strokes),
        game.after_shot(action).phase == Phase::Holed,
        game.after_shot(action).ball == game.ball,
        game.after_shot(action).strokes == game.strokes,
        game.after_shot(action).grid == game.grid,
{
}

/// Once the ball is in the hole nothing moves it: whatever shot or turn
/// follows, the game stays exactly as it is.
pub proof fn lemma_holed_game_is_final(
    game: Game,
    action: Action,
    roll: i32,
    direction: DirectionReply,
    club: ClubReply,
)
    requires
        game.phase == Phase::Holed,
    ensures
        game.after_shot(action) == game,
        game.after_turn(roll, direction, club) == game,
        game.shot_outcome(action) == Outcome::Holed(game.strokes),
        game.turn_outcome(roll, direction, club) == Outcome::Holed(game.strokes),
{
}

/// A shot that ends in water, in a tree or off the grid changes nothing:
/// the ball, the stroke count and every cell stay as they were, and the shot
/// is to be played again.
pub proof fn lemma_hazard_changes_nothing(game: Game, action: Action)
    requires
        game.wf(),
        game.phase == Phase::AwaitingShot,
        game.landing_terrain(action) == Some(Terrain::Water) || game.landing_terrain(action)
            == Some(Terrain::Tree) || game.landing_terrain(action).is_none(),
    ensures
        game.after_shot(action) == game,
        game.shot_outcome(action) is Redo,
{
}

/// A shot that ends on any other terrain counts: the cell where the ball
/// came to rest is marked with the number of the stroke, every other cell,
/// the size of the grid and its start are as they were, and the ball lies on
/// the marked cell. The stroke count has gone up by one wherever it can
/// still count.
pub proof fn lemma_landing_marks_one_cell(game: Game, action: Action)
    requires
        game.wf(),
        game.phase == Phase::AwaitingShot,
        game.landing_terrain(action) matches Some(terrain) && terrain != Terrain::Hole && terrain
            != Terrain::Water && terrain != Terrain::Tree,
    ensures
        game.shot_outcome(action) == Outcome::Advanced,
        landing_cell(game.grid, game.ball, action) matches Some(spot) && {
            let after = game.after_shot(action);
            &&& game.grid.in_bounds(spot)
            &&& after.ball == spot
            &&& game.strokes < u8::MAX ==> after.strokes == game.strokes + 1
            &&& after.phase == Phase::AwaitingShot
            &&& after.grid.width == game.grid.width
            &&& after.grid.height == game.grid.height
            &&& after.grid.start == game.grid.start
            &&& after.grid.cells == game.grid.cells.update(
                game.grid.index_of(spot),
                Terrain::Start(game.strokes),
            )
            &&& after.grid.cells.len() == game.grid.cells.len()
            &&& after.grid.terrain_at(spot) == Terrain::Start(game.strokes)
            &&& forall|q: Point|
                game.grid.in_bounds(q) && q != spot ==> #[trigger] after.grid.terrain_at(q)
                    == game.grid.terrain_at(q)
        },
{
    let spot = landing_cell(game.grid, game.ball, action)->Some_0;
    lemma_landing_rests_inside(game.grid, game.ball, action);
    game.grid.lemma_with_terrain(spot, Terrain::Start(game.strokes));
}

/// A turn whose answers are not recognised changes nothing, and a turn
/// whose answer is empty ends the game without touching the ball, the
/// stroke count or the grid.
pub proof fn lemma_unplayed_turn_keeps_state(
    game: Game,
    roll: i32,
    direction: DirectionReply,
    club: ClubReply,
)
    requires
        game.phase == Phase::AwaitingShot,
        game.chosen_action(roll, direction, club).is_none(),
    ensures
        game.after_turn(roll, direction, club).ball == game.ball,
        game.after_turn(roll, direction, club).strokes == game.strokes,
        game.after_turn(roll, direction, club).grid == game.grid,
        game.turn_outcome(roll, direction, club) == Outcome::Reprompt ==> game.after_turn(
            roll,
            direction,
            club,
        ) == game,
{
}

/// The strength of a shot played from `terrain` after a roll of `roll`: sand
/// takes one off, fairway adds one, and the result is never less than one.
pub fn effective_strength(roll: i32, terrain: &Terrain) -> (strength: i32)
    requires
        roll < i32::MAX,
    ensures
        strength == effective_strength_of(roll as int, *terrain),
{
    match terrain {
        Terrain::Sand => if roll <= 1 {
            1
        } else {
            roll - 1
        },
        Terrain::Fairway => if roll < 0 {
            1
        } else {
            roll + 1
        },
        _ => if roll < 1 {
            1
        } else {
            roll
        },
    }
}

/// What a shot comes to when the ball comes to rest on `landing`, or is lost
/// (`None`): the hole wins the game, water, a tree and a lost ball have the
/// shot played again, anything else counts.
pub fn classify(landing: Option<Terrain>, strokes: u8) -> (outcome: Outcome)
    ensures
        outcome == verdict(landing, strokes),
{
    match landing {
        None => Outcome::Redo(Hazard::OffMap),
        Some(Terrain::Hole) => Outcome::Holed(strokes),
        Some(Terrain::Water) => Outcome::Redo(Hazard::Water),
        Some(Terrain::Tree) => Outcome::Redo(Hazard::Tree),
        Some(_) => Outcome::Advanced,
    }
}

/// A game in progress. It owns its world: nothing else writes to the grid
/// while the game lasts.
#[derive(Debug)]
pub struct Session {
    world: World,
    ball: Point,
    strokes: u8,
    phase: Phase,
}

impl View for Session {
    type V = Game;

    closed spec fn view(&self) -> Game {
        Game { grid: self.world@, ball: self.ball, strokes: self.strokes, phase: self.phase }
    }
}

impl Clone for Session {
    /// A copy of the game as it stands.
    fn clone(&self) -> (copy: Session)
        ensures
            copy@ == self@,
    {
        Session {
            world: self.world.clone(),
            ball: self.ball,
            strokes: self.strokes,
            phase: self.phase,
        }
    }
}

impl Session {
    /// Starts a game on `world`: the ball on the start cell, the first stroke
    /// to be played.
    pub fn new(world: World) -> (session: Session)
        requires
            world@.wf(),
        ensures
            session@ == Game::opening(world@),
            session@.wf(),
    {
        let ball: Point = world.start();
        Session { world, ball, strokes: 1, phase: Phase::AwaitingShot }
    }

    /// The world as the game has left it.
    pub fn world(&self) -> (world: &World)
        ensures
            world@ == self@.grid,
    {
        &self.world
    }

    /// The cell the ball lies on.
    pub fn ball(&self) -> (ball: Point)
        ensures
            ball == self@.ball,
    {
        self.ball
    }

    /// The number of the stroke that is played next, counted from one.
    pub fn strokes(&self) -> (strokes: u8)
        ensures
            strokes == self@.strokes,
    {
        self.strokes
    }

    /// Where the game stands.
    pub fn phase(&self) -> (phase: Phase)
        ensures
            phase == self@.phase,
    {
        self.phase
    }

    /// The strength of the shot that follows a roll of `roll`, from the
    /// terrain the ball lies on.
    pub fn strength(&self, roll: i32) -> (strength: i32)
        requires
            self@.wf(),
            roll < i32::MAX,
        ensures
            strength == effective_strength_of(roll as int, self@.grid.terrain_at(self@.ball)),
            strength == self@.strength(roll),
            strength >= 1,
    {
        effective_strength(roll, self.world.get_terrain(&self.ball))
    }

    /// The player leaves: a game that awaits a shot is aborted, a game that
    /// is over stays as it is.
    pub fn abort(&mut self)
        ensures
            final(self)@ == if old(self)@.phase == Phase::AwaitingShot {
                Game { phase: Phase::Aborted, ..old(self)@ }
            } else {
                old(self)@
            },
    {
        if let Phase::AwaitingShot = self.phase {
            self.phase = Phase::Aborted;
        }
    }

    /// Plays one shot and says what it came to.
    pub fn play(&mut self, action: Action) -> (outcome: Outcome)
        requires
            old(self)@.wf(),
            old(self)@.shot_outcome(action) == Outcome::Advanced ==> old(self)@.strokes < u8::MAX,
        ensures
            outcome == old(self)@.shot_outcome(action),
            final(self)@ == old(self)@.after_shot(action),
            final(self)@.wf(),
    {
        match self.phase {
            Phase::Holed => {
                return Outcome::Holed(self.strokes);
            },
            Phase::Aborted => {
                return Outcome::Aborted;
            },
            Phase::AwaitingShot => {},
        }
        let rest: Option<Point> = resolve_shot(&self.ball, action, &self.world);
        let landing: Option<Terrain> = match rest {
            Some(spot) => Some(*self.world.get_terrain(&spot)),
            None => None,
        };
        let outcome: Outcome = classify(landing, self.strokes);
        match outcome {
            Outcome::Holed(_) => {
                self.phase = Phase::Holed;
            },
            Outcome::Advanced => {
                let spot: Point = rest.unwrap();
                self.world.set_terrain(&spot, Terrain::Start(self.strokes));
                self.ball = spot;
                self.strokes = self.strokes + 1;
            },
            _ => {},
        }
        outcome
    }

    /// Plays one turn from the roll of the die and the player's two answers.
    /// The answer to the question for the club counts only where the first
    /// answer chose a direction.
    pub fn take_turn(&mut self, roll: i32, direction: DirectionReply, club: ClubReply) -> (outcome:
        Outcome)
        requires
            old(self)@.wf(),
            old(self)@.turn_outcome(roll, direction, club) == Outcome::Advanced ==> old(
                self,
            )@.strokes < u8::MAX,
            roll < i32::MAX,
        ensures
            outcome == old(self)@.turn_outcome(roll, direction, club),
            final(self)@ == old(self)@.after_turn(roll, direction, club),
            final(self)@.wf(),
    {
        match self.phase {
            Phase::Holed => {
                return Outcome::Holed(self.strokes);
            },
            Phase::Aborted => {
                return Outcome::Aborted;
            },
            Phase::AwaitingShot => {},
        }
        match direction {
            DirectionReply::Quit => {
                self.phase = Phase::Aborted;
                Outcome::Aborted
            },
            DirectionReply::Unrecognized => Outcome::Reprompt,
            DirectionReply::Chosen(d) => match club {
                ClubReply::Quit => {
                    self.phase = Phase::Aborted;
                    Outcome::Aborted
                },
                ClubReply::Unrecognized => Outcome::Reprompt,
                ClubReply::Chosen(c) => {
                    let strength: i32 = self.strength(roll);
                    self.play(c.action(d, strength))
                },
            },
        }
    }
}

} // verus!
