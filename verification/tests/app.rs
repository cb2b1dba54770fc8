use lib::app::{App, InputMode};
use lib::camera::Camera;
use lib::direction::Direction;
use lib::game::PlayState;
use lib::level::LevelId;
use lib::position::Position;

#[test]
fn camera_mode_moves_camera_without_moving_player() {
    let mut app = App::new();
    let player_before = app.game().player_position();

    app.toggle_camera_mode();
    app.press_direction(Direction::North);

    assert_eq!(app.game().player_position(), player_before);
    assert_eq!(app.camera().y(), 26);
}

#[test]
fn exiting_camera_mode_returns_to_player() {
    let mut app = App::new();
    app.toggle_camera_mode();
    app.press_direction(Direction::North);
    app.press_direction(Direction::North);
    app.toggle_camera_mode();

    assert_eq!(app.input_mode(), InputMode::Player);
    assert_eq!(
        app.camera(),
        Camera::following(
            app.game().player_position(),
            app.game().width(),
            app.game().height()
        )
    );
}

#[test]
fn camera_mode_suppresses_stall_and_restart() {
    let mut app = App::new();
    app.press_direction(Direction::East);
    let player_before = app.game().player_position();
    let rat_before = app.game().rat_position();

    app.toggle_camera_mode();
    app.press_a();
    app.press_b();

    assert_eq!(app.input_mode(), InputMode::Camera);
    assert_eq!(app.game().player_position(), player_before);
    assert_eq!(app.game().rat_position(), rat_before);
    assert_ne!(player_before, Position::new(3, 6));
}

#[test]
fn app_starts_in_the_rats_puzzle() {
    let app = App::new();
    assert_eq!(app.game().level_id(), LevelId::Rats);
    assert_eq!(app.input_mode(), InputMode::Player);
    assert_eq!(app.camera().x(), -28);
    assert_eq!(app.camera().y(), 32);
}

#[test]
fn undo_takes_back_a_move() {
    let mut app = App::new();
    app.press_direction(Direction::East);
    assert_eq!(app.game().player_position(), Position::new(4, 6));
    assert_eq!(app.game().rat_position(), Some(Position::new(4, 0)));
    app.undo();
    assert_eq!(app.game().player_position(), Position::new(3, 6));
    assert_eq!(app.game().rat_position(), Some(Position::new(3, 0)));
    assert_eq!(app.game().player_direction(), Direction::North);
    // Nothing is left to undo.
    app.undo();
    assert_eq!(app.game().player_position(), Position::new(3, 6));
}

#[test]
fn undo_takes_back_a_stall() {
    let mut app = App::new();
    app.press_direction(Direction::East);
    app.press_a();
    app.undo();
    assert_eq!(app.game().player_position(), Position::new(4, 6));
    assert_eq!(app.game().rat_position(), Some(Position::new(4, 0)));
}

#[test]
fn restart_resets_the_puzzle_and_history() {
    let mut app = App::new();
    app.press_direction(Direction::East);
    app.press_b();
    assert_eq!(app.game().player_position(), Position::new(3, 6));
    assert_eq!(app.game().rat_position(), Some(Position::new(3, 0)));
    app.undo();
    assert_eq!(app.game().player_position(), Position::new(3, 6));
}

#[test]
fn exit_returns_to_the_intro_and_portals_lead_back() {
    let mut app = App::new();
    app.exit_level();
    assert_eq!(app.game().level_id(), LevelId::Intro);
    assert_eq!(app.game().player_position(), Position::new(4, 10));
    app.press_direction(Direction::North);
    assert!(app.game().is_on_portal());
    app.press_a();
    assert_eq!(app.game().level_id(), LevelId::Rats);
    assert_eq!(app.game().player_position(), Position::new(3, 6));
    assert_eq!(app.game().state(), PlayState::Playing);
}

#[test]
fn exit_is_ignored_in_camera_mode_and_in_the_intro() {
    let mut app = App::new();
    app.toggle_camera_mode();
    app.exit_level();
    assert_eq!(app.game().level_id(), LevelId::Rats);
    app.toggle_camera_mode();
    app.exit_level();
    app.exit_level();
    assert_eq!(app.game().level_id(), LevelId::Intro);
}

#[test]
fn toggling_twice_keeps_the_view() {
    let mut app = App::new();
    let camera = app.camera();
    app.toggle_camera_mode();
    app.toggle_camera_mode();
    assert_eq!(app.camera(), camera);
    assert_eq!(app.input_mode(), InputMode::Player);
}

#[test]
fn northern_intro_portal_leads_to_the_webs() {
    let mut app = App::new();
    app.exit_level();
    for _ in 0..8 {
        app.press_direction(Direction::North);
    }
    assert_eq!(app.game().player_position(), Position::new(4, 2));
    assert!(app.game().is_on_portal());
    app.press_a();
    assert_eq!(app.game().level_id(), LevelId::Webs);
    assert_eq!(app.game().player_position(), Position::new(2, 6));
    assert_eq!(app.game().state(), PlayState::Playing);
}

#[test]
fn a_in_a_puzzle_is_a_stalled_turn() {
    let mut app = App::new();
    let mut expected = lib::game::Game::new(LevelId::Rats);
    expected.act(None);
    app.press_a();
    assert_eq!(app.game().level_id(), LevelId::Rats);
    assert_eq!(app.game().player_position(), expected.player_position());
    assert_eq!(app.game().rat_position(), expected.rat_position());
    assert_eq!(app.game().rat(0).direction, expected.rat(0).direction);
    assert_eq!(app.game().rat(0).position, expected.rat(0).position);
    assert_eq!(app.input_mode(), InputMode::Player);
}
