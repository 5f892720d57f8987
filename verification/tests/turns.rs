use minigolf::geometry::{Action, Direction, Point};
use minigolf::input::{Club, ClubReply, DirectionReply};
use minigolf::terrain::Terrain;
use minigolf::turn::{classify, effective_strength, Hazard, Outcome, Phase, Session};
use minigolf::world::World;

fn point(x: i32, y: i32) -> Point {
    Point { x, y }
}

fn game(text: &[u8]) -> Session {
    Session::new(World::load(text).unwrap())
}

fn cells(session: &Session) -> Vec<Terrain> {
    let world = session.world();
    let mut all = Vec::new();
    for x in 0..world.height() {
        for y in 0..world.width() {
            all.push(*world.get_terrain(&point(x, y)));
        }
    }
    all
}

#[test]
fn a_new_game_awaits_the_first_stroke() {
    let session = game(b". . .\n. x o\n");
    assert_eq!(session.ball(), point(1, 1));
    assert_eq!(session.strokes(), 1);
    assert_eq!(session.phase(), Phase::AwaitingShot);
    assert_eq!(session.world().width(), 3);
}

#[test]
fn a_slope_carries_the_ball_into_the_hole() {
    let mut session = game(b"x > o\n");
    let before = cells(&session);
    let outcome = session.play(Action::Drive(Direction::E, 1));
    assert_eq!(outcome, Outcome::Holed(1));
    assert_eq!(session.phase(), Phase::Holed);
    assert_eq!(session.strokes(), 1);
    assert_eq!(session.ball(), point(0, 0));
    assert_eq!(cells(&session), before);
}

#[test]
fn water_has_the_shot_played_again() {
    let mut session = game(b"x w\n");
    let before = cells(&session);
    let outcome = session.play(Action::Drive(Direction::E, 1));
    assert_eq!(outcome, Outcome::Redo(Hazard::Water));
    assert_eq!(session.ball(), point(0, 0));
    assert_eq!(session.strokes(), 1);
    assert_eq!(session.phase(), Phase::AwaitingShot);
    assert_eq!(cells(&session), before);
}

#[test]
fn a_tree_has_the_shot_played_again() {
    let mut session = game(b"x . t o\n");
    let before = cells(&session);
    assert_eq!(session.play(Action::Drive(Direction::E, 2)), Outcome::Redo(Hazard::Tree));
    assert_eq!(session.ball(), point(0, 0));
    assert_eq!(session.strokes(), 1);
    assert_eq!(session.phase(), Phase::AwaitingShot);
    assert_eq!(cells(&session), before);
}

#[test]
fn a_ball_off_the_grid_has_the_shot_played_again() {
    let mut session = game(b"x . >\n. . o\n");
    let before = cells(&session);
    assert_eq!(session.play(Action::Drive(Direction::E, 5)), Outcome::Redo(Hazard::OffMap));
    assert_eq!(session.play(Action::Put(Direction::N)), Outcome::Redo(Hazard::OffMap));
    assert_eq!(session.play(Action::Drive(Direction::E, 2)), Outcome::Redo(Hazard::OffMap));
    assert_eq!(session.play(Action::Drive(Direction::S, i32::MAX)), Outcome::Redo(Hazard::OffMap));
    assert_eq!(session.ball(), point(0, 0));
    assert_eq!(session.strokes(), 1);
    assert_eq!(cells(&session), before);
}

#[test]
fn a_landing_marks_the_cell_with_the_stroke() {
    let mut session = game(b"x . s .\n. f . o\n");
    assert_eq!(session.play(Action::Drive(Direction::E, 2)), Outcome::Advanced);
    assert_eq!(session.ball(), point(0, 2));
    assert_eq!(session.strokes(), 2);
    assert_eq!(session.phase(), Phase::AwaitingShot);
    assert_eq!(
        cells(&session),
        vec![
            Terrain::Start(0),
            Terrain::Grass,
            Terrain::Start(1),
            Terrain::Grass,
            Terrain::Grass,
            Terrain::Fairway,
            Terrain::Grass,
            Terrain::Hole,
        ]
    );
    assert_eq!(session.play(Action::Put(Direction::SW)), Outcome::Advanced);
    assert_eq!(session.ball(), point(1, 1));
    assert_eq!(session.strokes(), 3);
    assert_eq!(
        cells(&session),
        vec![
            Terrain::Start(0),
            Terrain::Grass,
            Terrain::Start(1),
            Terrain::Grass,
            Terrain::Grass,
            Terrain::Start(2),
            Terrain::Grass,
            Terrain::Hole,
        ]
    );
    assert_eq!(session.play(Action::Drive(Direction::E, 2)), Outcome::Holed(3));
    assert_eq!(session.ball(), point(1, 1));
    assert_eq!(session.strokes(), 3);
}

#[test]
fn a_ball_may_land_on_a_marked_cell_again() {
    let mut session = game(b"x . o\n");
    assert_eq!(session.play(Action::Put(Direction::E)), Outcome::Advanced);
    assert_eq!(session.play(Action::Put(Direction::W)), Outcome::Advanced);
    assert_eq!(session.ball(), point(0, 0));
    assert_eq!(session.strokes(), 3);
    assert_eq!(cells(&session), vec![Terrain::Start(2), Terrain::Start(1), Terrain::Hole]);
}

#[test]
fn a_ball_stopped_on_a_slope_marks_the_slope() {
    let mut session = game(b"x > <\n");
    assert_eq!(session.play(Action::Put(Direction::E)), Outcome::Advanced);
    assert_eq!(session.ball(), point(0, 2));
    assert_eq!(
        cells(&session),
        vec![Terrain::Start(0), Terrain::Slope(Direction::E), Terrain::Start(1)]
    );
}

#[test]
fn a_game_in_the_hole_stays_as_it_is() {
    let mut session = game(b"x . o\n. . .\n");
    assert_eq!(session.play(Action::Put(Direction::S)), Outcome::Advanced);
    assert_eq!(session.play(Action::Drive(Direction::NE, 1)), Outcome::Advanced);
    assert_eq!(session.play(Action::Put(Direction::E)), Outcome::Holed(3));
    let before = cells(&session);
    for action in [
        Action::Put(Direction::W),
        Action::Drive(Direction::S, 1),
        Action::Drive(Direction::E, 9),
    ] {
        assert_eq!(session.play(action), Outcome::Holed(3));
        assert_eq!(session.ball(), point(0, 1));
        assert_eq!(session.strokes(), 3);
        assert_eq!(session.phase(), Phase::Holed);
        assert_eq!(cells(&session), before);
    }
    let outcome =
        session.take_turn(4, DirectionReply::Chosen(Direction::W), ClubReply::Chosen(Club::Put));
    assert_eq!(outcome, Outcome::Holed(3));
    assert_eq!(session.take_turn(4, DirectionReply::Quit, ClubReply::Quit), Outcome::Holed(3));
    session.abort();
    assert_eq!(session.ball(), point(0, 1));
    assert_eq!(session.phase(), Phase::Holed);
    assert_eq!(cells(&session), before);
}

#[test]
fn sand_never_takes_the_strength_below_one() {
    assert_eq!(effective_strength(1, &Terrain::Sand), 1);
    assert_eq!(effective_strength(2, &Terrain::Sand), 1);
    assert_eq!(effective_strength(3, &Terrain::Sand), 2);
    assert_eq!(effective_strength(6, &Terrain::Sand), 5);
}

#[test]
fn the_terrain_under_the_ball_changes_the_strength() {
    assert_eq!(effective_strength(1, &Terrain::Fairway), 2);
    assert_eq!(effective_strength(6, &Terrain::Fairway), 7);
    for roll in 1..=6 {
        assert_eq!(effective_strength(roll, &Terrain::Grass), roll);
        assert_eq!(effective_strength(roll, &Terrain::Start(0)), roll);
        assert_eq!(effective_strength(roll, &Terrain::Start(7)), roll);
        assert_eq!(effective_strength(roll, &Terrain::Hole), roll);
        assert_eq!(effective_strength(roll, &Terrain::Tree), roll);
        assert_eq!(effective_strength(roll, &Terrain::Water), roll);
        assert_eq!(effective_strength(roll, &Terrain::Slope(Direction::N)), roll);
        assert_eq!(effective_strength(roll, &Terrain::Fairway), roll + 1);
    }
}

#[test]
fn a_roll_below_the_die_still_gives_strength_one() {
    assert_eq!(effective_strength(0, &Terrain::Grass), 1);
    assert_eq!(effective_strength(-3, &Terrain::Fairway), 1);
    assert_eq!(effective_strength(0, &Terrain::Fairway), 1);
    assert_eq!(effective_strength(i32::MIN, &Terrain::Sand), 1);
    assert_eq!(effective_strength(i32::MAX - 1, &Terrain::Fairway), i32::MAX);
}

#[test]
fn the_session_reads_the_terrain_under_the_ball() {
    let sand = game(b"s . o\n");
    assert_eq!(sand.ball(), point(0, 0));
    assert_eq!(sand.strength(1), 1);
    assert_eq!(sand.strength(4), 3);
    let fairway = game(b"f . o\n");
    assert_eq!(fairway.strength(4), 5);
    let tee = game(b"x . o\n");
    assert_eq!(tee.strength(4), 4);
}

#[test]
fn classify_tells_the_landings_apart() {
    assert_eq!(classify(Some(Terrain::Hole), 4), Outcome::Holed(4));
    assert_eq!(classify(Some(Terrain::Water), 4), Outcome::Redo(Hazard::Water));
    assert_eq!(classify(Some(Terrain::Tree), 4), Outcome::Redo(Hazard::Tree));
    assert_eq!(classify(None, 4), Outcome::Redo(Hazard::OffMap));
    assert_eq!(classify(Some(Terrain::Grass), 4), Outcome::Advanced);
    assert_eq!(classify(Some(Terrain::Sand), 4), Outcome::Advanced);
    assert_eq!(classify(Some(Terrain::Fairway), 4), Outcome::Advanced);
    assert_eq!(classify(Some(Terrain::Start(0)), 4), Outcome::Advanced);
    assert_eq!(classify(Some(Terrain::Slope(Direction::W)), 4), Outcome::Advanced);
}

#[test]
fn a_drive_uses_the_strength_of_the_turn() {
    let mut session = game(b"x . . . . . o\n");
    let outcome =
        session.take_turn(3, DirectionReply::Chosen(Direction::E), ClubReply::Chosen(Club::Drive));
    assert_eq!(outcome, Outcome::Advanced);
    assert_eq!(session.ball(), point(0, 3));
    assert_eq!(session.strokes(), 2);
    let outcome =
        session.take_turn(3, DirectionReply::Chosen(Direction::E), ClubReply::Chosen(Club::Drive));
    assert_eq!(outcome, Outcome::Holed(2));
}

#[test]
fn a_put_moves_one_cell_whatever_the_roll() {
    let mut session = game(b"x . . . . . o\n");
    let outcome =
        session.take_turn(6, DirectionReply::Chosen(Direction::E), ClubReply::Chosen(Club::Put));
    assert_eq!(outcome, Outcome::Advanced);
    assert_eq!(session.ball(), point(0, 1));
    assert_eq!(Club::Put.action(Direction::E, 6), Action::Put(Direction::E));
    assert_eq!(Club::Drive.action(Direction::E, 6), Action::Drive(Direction::E, 6));
}

#[test]
fn a_turn_from_sand_flies_one_cell_less() {
    let mut session = game(b"s . . . o\n");
    let outcome =
        session.take_turn(4, DirectionReply::Chosen(Direction::E), ClubReply::Chosen(Club::Drive));
    assert_eq!(outcome, Outcome::Advanced);
    assert_eq!(session.ball(), point(0, 3));
    let mut session = game(b"f . . . . o\n");
    let outcome =
        session.take_turn(4, DirectionReply::Chosen(Direction::E), ClubReply::Chosen(Club::Drive));
    assert_eq!(outcome, Outcome::Holed(1));
}

#[test]
fn an_answer_that_is_not_recognised_starts_the_turn_again() {
    let mut session = game(b"x . o\n");
    let before = cells(&session);
    let replies = [
        (DirectionReply::Unrecognized, ClubReply::Chosen(Club::Drive)),
        (DirectionReply::Unrecognized, ClubReply::Unrecognized),
        (DirectionReply::Unrecognized, ClubReply::Quit),
        (DirectionReply::Chosen(Direction::E), ClubReply::Unrecognized),
    ];
    for (direction, club) in replies {
        assert_eq!(session.take_turn(2, direction, club), Outcome::Reprompt);
        assert_eq!(session.ball(), point(0, 0));
        assert_eq!(session.strokes(), 1);
        assert_eq!(session.phase(), Phase::AwaitingShot);
        assert_eq!(cells(&session), before);
    }
}

#[test]
fn an_empty_answer_ends_the_game() {
    let mut session = game(b"x . o\n");
    let before = cells(&session);
    assert_eq!(
        session.take_turn(2, DirectionReply::Quit, ClubReply::Chosen(Club::Drive)),
        Outcome::Aborted
    );
    assert_eq!(session.phase(), Phase::Aborted);
    assert_eq!(session.ball(), point(0, 0));
    assert_eq!(session.strokes(), 1);
    assert_eq!(cells(&session), before);
    assert_eq!(session.play(Action::Put(Direction::E)), Outcome::Aborted);
    assert_eq!(
        session.take_turn(2, DirectionReply::Chosen(Direction::E), ClubReply::Chosen(Club::Put)),
        Outcome::Aborted
    );
    assert_eq!(session.ball(), point(0, 0));
    assert_eq!(cells(&session), before);

    let mut session = game(b"x . o\n");
    assert_eq!(
        session.take_turn(2, DirectionReply::Chosen(Direction::E), ClubReply::Quit),
        Outcome::Aborted
    );
    assert_eq!(session.phase(), Phase::Aborted);

    let mut session = game(b"x . o\n");
    session.abort();
    assert_eq!(session.phase(), Phase::Aborted);
    assert_eq!(session.ball(), point(0, 0));
}
