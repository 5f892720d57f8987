use minigolf::geometry::{Direction, Point};
use minigolf::loader::LoadError;
use minigolf::terrain::Terrain;
use minigolf::world::World;

fn at(world: &World, x: i32, y: i32) -> Terrain {
    *world.get_terrain(&Point { x, y })
}

#[test]
fn loads_every_symbol_of_the_table() {
    let world = World::load(b"> < ^ v o\nt s x w f\n").unwrap();
    assert_eq!(world.width(), 5);
    assert_eq!(world.height(), 2);
    assert_eq!(at(&world, 0, 0), Terrain::Slope(Direction::E));
    assert_eq!(at(&world, 0, 1), Terrain::Slope(Direction::W));
    assert_eq!(at(&world, 0, 2), Terrain::Slope(Direction::N));
    assert_eq!(at(&world, 0, 3), Terrain::Slope(Direction::S));
    assert_eq!(at(&world, 0, 4), Terrain::Hole);
    assert_eq!(at(&world, 1, 0), Terrain::Tree);
    assert_eq!(at(&world, 1, 1), Terrain::Sand);
    assert_eq!(at(&world, 1, 2), Terrain::Start(0));
    assert_eq!(at(&world, 1, 3), Terrain::Water);
    assert_eq!(at(&world, 1, 4), Terrain::Fairway);
}

#[test]
fn from_symbol_reads_single_tokens() {
    assert_eq!(Terrain::from_symbol(b">"), Terrain::Slope(Direction::E));
    assert_eq!(Terrain::from_symbol(b"<"), Terrain::Slope(Direction::W));
    assert_eq!(Terrain::from_symbol(b"^"), Terrain::Slope(Direction::N));
    assert_eq!(Terrain::from_symbol(b"v"), Terrain::Slope(Direction::S));
    assert_eq!(Terrain::from_symbol(b"o"), Terrain::Hole);
    assert_eq!(Terrain::from_symbol(b"t"), Terrain::Tree);
    assert_eq!(Terrain::from_symbol(b"s"), Terrain::Sand);
    assert_eq!(Terrain::from_symbol(b"x"), Terrain::Start(0));
    assert_eq!(Terrain::from_symbol(b"w"), Terrain::Water);
    assert_eq!(Terrain::from_symbol(b"f"), Terrain::Fairway);
}

#[test]
fn any_other_symbol_is_grass() {
    assert_eq!(Terrain::from_symbol(b"."), Terrain::Grass);
    assert_eq!(Terrain::from_symbol(b"X"), Terrain::Grass);
    assert_eq!(Terrain::from_symbol(b"O"), Terrain::Grass);
    assert_eq!(Terrain::from_symbol(b""), Terrain::Grass);
    assert_eq!(Terrain::from_symbol(b"xx"), Terrain::Grass);
    assert_eq!(Terrain::from_symbol(b">>"), Terrain::Grass);
    assert_eq!(Terrain::from_symbol("é".as_bytes()), Terrain::Grass);
    let world = World::load(b"g # ox\n").unwrap();
    assert_eq!(world.width(), 3);
    assert_eq!(at(&world, 0, 0), Terrain::Grass);
    assert_eq!(at(&world, 0, 1), Terrain::Grass);
    assert_eq!(at(&world, 0, 2), Terrain::Grass);
}

#[test]
fn start_is_counted_from_zero() {
    let world = World::load(b". . .\n. . x\n. o .\n").unwrap();
    assert_eq!(world.start(), Point { x: 1, y: 2 });
    assert_eq!(at(&world, 1, 2), Terrain::Start(0));
    let corner = World::load(b"x .\n. o\n").unwrap();
    assert_eq!(corner.start(), Point { x: 0, y: 0 });
}

#[test]
fn the_last_tee_is_the_start() {
    let world = World::load(b"x . x\n. x .\n").unwrap();
    assert_eq!(world.start(), Point { x: 1, y: 1 });
    assert_eq!(at(&world, 0, 0), Terrain::Start(0));
    assert_eq!(at(&world, 0, 2), Terrain::Start(0));
}

#[test]
fn a_map_without_tee_starts_top_left() {
    let world = World::load(b"s . o\n. . .\n").unwrap();
    assert_eq!(world.start(), Point { x: 0, y: 0 });
    assert_eq!(at(&world, 0, 0), Terrain::Sand);
}

#[test]
fn width_times_height_is_the_number_of_cells() {
    let texts: [&[u8]; 5] = [
        b"x",
        b"x o",
        b"x\no\n",
        b"x . . o\n. t w .\n. s f .\n",
        b". . . . . . .\n. . . x . . .\n. . . . . . .\n. . . . . . .\n. . . . . o .\n",
    ];
    let sizes: [(i32, i32); 5] = [(1, 1), (2, 1), (1, 2), (4, 3), (7, 5)];
    for (text, (width, height)) in texts.iter().zip(sizes.iter()) {
        let world = World::load(text).unwrap();
        assert_eq!(world.width(), *width);
        assert_eq!(world.height(), *height);
        let mut inside = 0;
        for x in -2..height + 2 {
            for y in -2..width + 2 {
                let p = Point { x, y };
                assert_eq!(world.in_bounds(&p), 0 <= x && x < *height && 0 <= y && y < *width);
                assert_eq!(world.terrain_at(&p).is_some(), world.in_bounds(&p));
                if world.in_bounds(&p) {
                    inside += 1;
                }
            }
        }
        assert_eq!(inside, width * height);
    }
}

#[test]
fn cells_are_laid_out_row_after_row() {
    let world = World::load(b"x t s\nw f o\n").unwrap();
    let expected = [
        [Terrain::Start(0), Terrain::Tree, Terrain::Sand],
        [Terrain::Water, Terrain::Fairway, Terrain::Hole],
    ];
    for x in 0..2 {
        for y in 0..3 {
            assert_eq!(at(&world, x, y), expected[x as usize][y as usize]);
        }
    }
}

#[test]
fn rows_of_different_length_are_refused() {
    assert_eq!(World::load(b"x o\n. . .\n").unwrap_err(), LoadError::Ragged);
    assert_eq!(World::load(b"x . o\n. .\n").unwrap_err(), LoadError::Ragged);
    assert_eq!(World::load(b"x . o\n. . .\n.\n").unwrap_err(), LoadError::Ragged);
}

#[test]
fn a_text_without_symbols_is_refused() {
    assert_eq!(World::load(b"").unwrap_err(), LoadError::Empty);
    assert_eq!(World::load(b"\n").unwrap_err(), LoadError::Empty);
    assert_eq!(World::load(b"  \n\t\r\n   ").unwrap_err(), LoadError::Empty);
}

#[test]
fn lines_without_symbols_are_no_rows() {
    let world = World::load(b"\n\nx .\n\n   \n. o\n\n").unwrap();
    assert_eq!(world.width(), 2);
    assert_eq!(world.height(), 2);
    assert_eq!(at(&world, 1, 1), Terrain::Hole);
}

#[test]
fn blanks_of_any_length_separate_symbols() {
    let world = World::load(b"  x   .\t o  \r\n\t.  .  .\r\n").unwrap();
    assert_eq!(world.width(), 3);
    assert_eq!(world.height(), 2);
    assert_eq!(world.start(), Point { x: 0, y: 0 });
    assert_eq!(at(&world, 0, 2), Terrain::Hole);
    assert_eq!(at(&world, 1, 0), Terrain::Grass);
}

#[test]
fn the_last_line_needs_no_line_feed() {
    let world = World::load(b"x .\n. o").unwrap();
    assert_eq!(world.height(), 2);
    assert_eq!(at(&world, 1, 1), Terrain::Hole);
}

#[test]
fn set_terrain_overwrites_one_cell() {
    let mut world = World::load(b"x . .\n. . o\n").unwrap();
    world.set_terrain(&Point { x: 1, y: 0 }, Terrain::Start(3));
    assert_eq!(at(&world, 1, 0), Terrain::Start(3));
    assert_eq!(at(&world, 0, 0), Terrain::Start(0));
    assert_eq!(at(&world, 0, 1), Terrain::Grass);
    assert_eq!(at(&world, 0, 2), Terrain::Grass);
    assert_eq!(at(&world, 1, 1), Terrain::Grass);
    assert_eq!(at(&world, 1, 2), Terrain::Hole);
    assert_eq!(world.width(), 3);
    assert_eq!(world.height(), 2);
    assert_eq!(world.start(), Point { x: 0, y: 0 });
}

#[test]
fn terrain_at_is_none_outside_the_grid() {
    let world = World::load(b"x o\n").unwrap();
    assert_eq!(world.terrain_at(&Point { x: 0, y: 1 }), Some(Terrain::Hole));
    assert_eq!(world.terrain_at(&Point { x: 0, y: 2 }), None);
    assert_eq!(world.terrain_at(&Point { x: 1, y: 0 }), None);
    assert_eq!(world.terrain_at(&Point { x: -1, y: 0 }), None);
    assert_eq!(world.terrain_at(&Point { x: 0, y: -1 }), None);
    assert_eq!(world.terrain_at(&Point { x: i32::MAX, y: i32::MIN }), None);
}

#[test]
fn generated_rectangles_load_cell_for_cell() {
    let symbols = [">", "<", "^", "v", "o", "t", "s", "w", "f", ".", "g", "#"];
    let terrains = [
        Terrain::Slope(Direction::E),
        Terrain::Slope(Direction::W),
        Terrain::Slope(Direction::N),
        Terrain::Slope(Direction::S),
        Terrain::Hole,
        Terrain::Tree,
        Terrain::Sand,
        Terrain::Water,
        Terrain::Fairway,
        Terrain::Grass,
        Terrain::Grass,
        Terrain::Grass,
    ];
    let mut state: u64 = 0x2545_f491_4f6c_dd1d;
    let mut next = |bound: u64| {
        state = state.wrapping_mul(6364136223846793005).wrapping_add(1442695040888963407);
        (state >> 33) % bound
    };
    for _ in 0..200 {
        let width = 1 + next(9) as usize;
        let height = 1 + next(9) as usize;
        let mut picks = Vec::new();
        let mut text = String::new();
        for _ in 0..height {
            for y in 0..width {
                let pick = next(symbols.len() as u64) as usize;
                picks.push(pick);
                if y > 0 {
                    text.push(' ');
                }
                text.push_str(symbols[pick]);
            }
            text.push('\n');
        }
        let world = World::load(text.as_bytes()).unwrap();
        assert_eq!(world.width() as usize, width);
        assert_eq!(world.height() as usize, height);
        assert_eq!(picks.len(), width * height);
        assert_eq!(world.start(), Point { x: 0, y: 0 });
        for x in 0..height {
            for y in 0..width {
                assert_eq!(at(&world, x as i32, y as i32), terrains[picks[x * width + y]]);
            }
        }
        assert_eq!(world.terrain_at(&Point { x: height as i32, y: 0 }), None);
        assert_eq!(world.terrain_at(&Point { x: 0, y: width as i32 }), None);
    }
}

#[test]
fn a_rectangle_with_one_cell_too_many_is_refused() {
    for height in 2..6 {
        for longer in 0..height {
            let mut text = String::new();
            for x in 0..height {
                text.push_str(if x == longer { ". . . .\n" } else { ". . .\n" });
            }
            assert_eq!(World::load(text.as_bytes()).unwrap_err(), LoadError::Ragged);
        }
    }
}
