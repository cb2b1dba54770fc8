use lib::direction::Direction;
use lib::game::{Game, PlayState};
use lib::grid::{Cell, MAX_CELL_COUNT};
use lib::level::LevelId;
use lib::position::Position;

/// The Rats level emptied down to a player at (2, 2) facing
/// `player_direction` and a rat right above it, facing south.
fn encounter(player_direction: Direction) -> Game {
    let width: u8 = 6;
    let height: u8 = 8;
    let mut cells = vec![Cell::Empty; MAX_CELL_COUNT];
    cells[2 * 6 + 2] = Cell::Player;
    cells[6 + 2] = Cell::Rat;
    Game::from_scenario(
        width,
        height,
        cells,
        Position::new(2, 2),
        player_direction,
        vec![Position::new(2, 1)],
        vec![Direction::South],
        1,
    )
}

#[test]
fn initial_level_matches_rats_map() {
    let game = Game::new(LevelId::Rats);
    assert_eq!(game.player_position(), Position::new(3, 6));
    assert_eq!(game.rat_position(), Some(Position::new(3, 0)));
    assert_eq!(game.count(Cell::Wall), 21);
}

#[test]
fn blocked_move_changes_facing_but_not_position() {
    let mut game = Game::new(LevelId::Rats);
    game.act(Some(Direction::North));
    assert_eq!(game.player_position(), Position::new(3, 6));
    assert_eq!(game.player_direction(), Direction::North);
}

#[test]
fn intro_portal_is_restored_after_player_leaves() {
    let mut game = Game::new(LevelId::Intro);
    let portal = Position::new(4, 9);

    game.act(Some(Direction::North));
    assert!(game.is_on_portal());
    game.act(Some(Direction::South));

    assert_eq!(game.cell(portal), Cell::Portal);
}

#[test]
fn sword_blocks_a_rat_attacking_from_the_front() {
    let mut game = encounter(Direction::North);
    game.act(None);
    assert_eq!(game.state(), PlayState::Playing);
    assert_eq!(game.rat_position(), Some(Position::new(2, 1)));
}

#[test]
fn rat_attacking_from_the_side_causes_game_over() {
    let mut game = encounter(Direction::East);
    game.act(None);
    assert_eq!(game.state(), PlayState::GameOver);
    assert_eq!(game.rat_position(), Some(Position::new(2, 2)));
}

#[test]
fn player_moving_into_a_rat_wins() {
    let mut game = encounter(Direction::South);
    game.act(Some(Direction::North));
    assert_eq!(game.state(), PlayState::Won);
    assert_eq!(game.rat_position(), None);
    assert_eq!(game.player_position(), Position::new(2, 1));
}

#[test]
fn finished_game_ignores_turns() {
    let mut game = encounter(Direction::East);
    game.act(None);
    assert_eq!(game.state(), PlayState::GameOver);
    game.act(Some(Direction::West));
    assert_eq!(game.state(), PlayState::GameOver);
    assert_eq!(game.player_position(), Position::new(2, 2));
    assert_eq!(game.player_direction(), Direction::East);
    assert_eq!(game.rat_position(), Some(Position::new(2, 2)));
}

#[test]
fn intro_rats_never_move() {
    let mut game = Game::new(LevelId::Intro);
    game.act(None);
    game.act(Some(Direction::North));
    assert_eq!(game.state(), PlayState::Playing);
    assert_eq!(game.rat_position(), Some(Position::new(6, 0)));
    assert_eq!(game.cell(Position::new(2, 9)), Cell::Rat);
    assert_eq!(game.cell(Position::new(6, 9)), Cell::Rat);
}

#[test]
fn rat_steps_closer_each_turn() {
    let mut game = Game::new(LevelId::Rats);
    // The wall below the rat keeps it put while the player stands still.
    game.act(None);
    assert_eq!(game.rat_position(), Some(Position::new(3, 0)));
    assert_eq!(game.rat(0).direction, Direction::South);
    // Once the player steps east, the rat can close in along the top row.
    game.act(Some(Direction::East));
    assert_eq!(game.player_position(), Position::new(4, 6));
    assert_eq!(game.rat_position(), Some(Position::new(4, 0)));
    assert_eq!(game.rat(0).direction, Direction::East);
    assert_eq!(game.cell(Position::new(3, 0)), Cell::Empty);
    assert_eq!(game.cell(Position::new(4, 0)), Cell::Rat);
}

#[test]
fn diagonal_rat_takes_the_closest_step() {
    // A rat one column left of and two rows above the player: the
    // south-east step ends next to the player, closer than the east or
    // south step or staying.
    let mut cells = vec![Cell::Empty; MAX_CELL_COUNT];
    cells[3 * 6 + 2] = Cell::Player;
    cells[6 + 1] = Cell::Rat;
    let mut game = Game::from_scenario(
        6,
        8,
        cells,
        Position::new(2, 3),
        Direction::North,
        vec![Position::new(1, 1)],
        vec![Direction::Southeast],
        1,
    );
    game.act(None);
    assert_eq!(game.rat_position(), Some(Position::new(2, 2)));
    assert_eq!(game.rat(0).direction, Direction::Southeast);
    assert_eq!(game.state(), PlayState::Playing);
}

#[test]
fn restart_returns_to_the_start() {
    let mut game = Game::new(LevelId::MoreRats);
    game.act(Some(Direction::North));
    game.act(None);
    game.restart();
    let fresh = Game::new(LevelId::MoreRats);
    assert_eq!(game.player_position(), fresh.player_position());
    assert_eq!(game.state(), PlayState::Playing);
    for y in 0..fresh.height() {
        for x in 0..fresh.width() {
            let p = Position::new(x as i8, y as i8);
            assert_eq!(game.cell(p), fresh.cell(p));
        }
    }
    assert_eq!(game.rat_count(), 12);
}

#[test]
fn every_level_shows_its_rats() {
    for id in [
        LevelId::Intro,
        LevelId::Rats,
        LevelId::MoreRats,
        LevelId::TrappedRat,
        LevelId::TrappedRat2,
        LevelId::Webs,
    ] {
        let game = Game::new(id);
        assert_eq!(game.count(Cell::Rat), game.rat_count());
        assert_eq!(game.count(Cell::Player), 1);
        assert_eq!(game.cell(game.player_position()), Cell::Player);
        for i in 0..game.rat_count() {
            let rat = game.rat(i);
            assert_eq!(game.cell(rat.position.unwrap()), Cell::Rat);
            assert_eq!(game.rat_direction_at(rat.position.unwrap()), rat.direction);
        }
    }
}

#[test]
fn webs_level_is_twelve_wide() {
    let game = Game::new(LevelId::Webs);
    assert_eq!(game.width(), 12);
    assert_eq!(game.height(), 8);
    assert_eq!(game.cell(Position::new(0, 0)), Cell::Web);
    assert_eq!(game.cell(Position::new(12, 0)), Cell::Wall);
    assert_eq!(game.cell(Position::new(-1, 3)), Cell::Wall);
}

#[test]
fn intro_portals_lead_to_the_puzzles() {
    let mut game = Game::new(LevelId::Intro);
    assert_eq!(game.portal_destination(), None);
    game.act(Some(Direction::North));
    assert_eq!(game.portal_destination(), Some(LevelId::Rats));
    game.act(Some(Direction::North));
    game.act(Some(Direction::North));
    assert_eq!(game.portal_destination(), Some(LevelId::MoreRats));
}
