use lib::direction::Direction;
use lib::grid::{Cell, Grid, MAX_CELL_COUNT};
use lib::level::{load, pad_cells, LevelId, Portal, RatSpawn};
use lib::position::Position;

#[test]
fn cells_read_back_what_was_written() {
    let mut grid = Grid::new(3, 2, vec![Cell::Empty; MAX_CELL_COUNT]);
    grid.set_cell(Position::new(2, 1), Cell::Rat);
    assert_eq!(grid.cell(Position::new(2, 1)), Cell::Rat);
    assert_eq!(grid.cell(Position::new(1, 1)), Cell::Empty);
    // Outside the grid everything is a wall, and writes are ignored.
    grid.set_cell(Position::new(3, 0), Cell::Rat);
    assert_eq!(grid.cell(Position::new(3, 0)), Cell::Wall);
    assert_eq!(grid.cell(Position::new(0, -1)), Cell::Wall);
    assert_eq!(grid.count(Cell::Rat), 1);
    assert_eq!(grid.count(Cell::Empty), 5);
}

#[test]
fn fill_and_copy() {
    let mut grid = Grid::new(2, 2, vec![Cell::Wall; MAX_CELL_COUNT]);
    let copy = grid.copy();
    grid.fill(Cell::Web);
    assert_eq!(grid.count(Cell::Web), 4);
    assert_eq!(copy.count(Cell::Wall), 4);
    assert_eq!((grid.width(), grid.height()), (2, 2));
}

#[test]
fn padding_fills_with_empty_cells() {
    let cells = pad_cells([Cell::Wall, Cell::Rat]);
    assert_eq!(cells.len(), MAX_CELL_COUNT);
    assert_eq!(cells[0], Cell::Wall);
    assert_eq!(cells[1], Cell::Rat);
    assert!(cells[2..].iter().all(|&c| c == Cell::Empty));
}

#[test]
fn levels_load_their_layouts() {
    let intro = load(LevelId::Intro);
    assert_eq!(intro.id, LevelId::Intro);
    assert_eq!((intro.grid.width(), intro.grid.height()), (9, 11));
    assert_eq!(intro.rats.len(), 3);
    assert_eq!(intro.portals.len(), 5);
    assert_eq!(intro.portals[4], Portal::new(Position::new(4, 2), LevelId::Webs));
    let trapped = load(LevelId::TrappedRat2);
    assert_eq!(trapped.rats.len(), 13);
    assert_eq!(trapped.rats[0], RatSpawn::new(Position::new(4, 0), Direction::South));
    assert_eq!(trapped.grid.count(Cell::Wall), 46);
}

#[test]
fn levels_show_exactly_their_actors() {
    let ids = [
        LevelId::Intro,
        LevelId::Rats,
        LevelId::MoreRats,
        LevelId::TrappedRat,
        LevelId::TrappedRat2,
        LevelId::Webs,
    ];
    for id in ids {
        let level = load(id);
        let (w, h) = (level.grid.width() as i8, level.grid.height() as i8);
        for y in 0..h {
            for x in 0..w {
                let p = Position::new(x, y);
                let cell = level.grid.cell(p);
                let is_rat = level.rats.iter().any(|r| r.position == p);
                let is_portal = level.portals.iter().any(|q| q.position == p);
                assert_eq!(cell == Cell::Rat, is_rat, "{:?} at {:?}", id, p);
                assert_eq!(cell == Cell::Player, p == level.player_position, "{:?} at {:?}", id, p);
                assert_eq!(cell == Cell::Portal, is_portal, "{:?} at {:?}", id, p);
            }
        }
    }
}

#[test]
fn intro_portals_stand_on_portal_cells() {
    let intro = load(LevelId::Intro);
    let expected = [
        (Position::new(4, 9), LevelId::Rats),
        (Position::new(4, 7), LevelId::MoreRats),
        (Position::new(5, 7), LevelId::TrappedRat),
        (Position::new(6, 7), LevelId::TrappedRat2),
        (Position::new(4, 2), LevelId::Webs),
    ];
    for (i, (p, id)) in expected.iter().enumerate() {
        assert_eq!(intro.portals[i], Portal::new(*p, *id));
        assert_eq!(intro.grid.cell(*p), Cell::Portal);
    }
    assert_eq!(intro.grid.cell(Position::new(4, 5)), Cell::Empty);
}
