use lib::fixture::{
    fixture_name, judge_fixture, json_string, normalize_csv, parse_action, parse_state,
    FixtureVerdict,
};
use lib::scenario::{run, Action, Error, State};
use lib::direction::Direction;
use lib::game::Game;
use lib::grid::{Cell, MAX_CELL_COUNT};
use lib::position::Position;

fn unsupported(result: Result<lib::scenario::Outcome, Error>) -> String {
    match result {
        Err(Error::Unsupported(message)) => message,
        Err(Error::Invalid(message)) => panic!("expected unsupported, got invalid: {message}"),
        Ok(outcome) => panic!("expected an error, got {}", outcome.csv),
    }
}

fn invalid(result: Result<lib::scenario::Outcome, Error>) -> String {
    match result {
        Err(Error::Invalid(message)) => message,
        Err(Error::Unsupported(message)) => panic!("expected invalid, got unsupported: {message}"),
        Ok(outcome) => panic!("expected an error, got {}", outcome.csv),
    }
}

#[test]
fn stalling_lets_the_rat_approach() {
    let outcome = run(".,R,.\n.,.,.\n.,▲,.", Action::Stall).unwrap();
    assert_eq!(outcome.csv, ".,.,.\n.,R,.\n.,▲,.\n");
    assert_eq!(outcome.state, State::Playing);
}

#[test]
fn sword_holds_the_rat_off() {
    let outcome = run(".,R,.\n.,.,.\n.,▲,.", Action::MoveNorth).unwrap();
    assert_eq!(outcome.csv, ".,R,.\n.,▲,.\n.,.,.\n");
    assert_eq!(outcome.state, State::Playing);
}

#[test]
fn rat_cuts_the_corner() {
    let outcome = run(".,R,.\n.,.,.\n.,▲,.", Action::MoveWest).unwrap();
    assert_eq!(outcome.csv, ".,.,.\nR,.,.\n◄,.,.\n");
    assert_eq!(outcome.state, State::Playing);
}

#[test]
fn killing_the_last_rat_wins() {
    let outcome = run(".,R\n.,▲", Action::MoveNorth).unwrap();
    assert_eq!(outcome.csv, ".,▲\n.,.\n");
    assert_eq!(outcome.state, State::Won);
}

#[test]
fn rat_from_behind_ends_the_game() {
    let outcome = run("R,►", Action::Stall).unwrap();
    assert_eq!(outcome.csv, ".,R\n");
    assert_eq!(outcome.state, State::GameOver);
}

#[test]
fn spacing_and_line_endings_are_ignored() {
    // The rat would have to attack the player from the front.
    let outcome = run("  . , R \r\n . , ▲ \n\n", Action::Stall).unwrap();
    assert_eq!(outcome.csv, ".,R\n.,▲\n");
    assert_eq!(outcome.state, State::Playing);
}

#[test]
fn webs_are_cells_of_their_own() {
    let outcome = run("w,▼", Action::Stall).unwrap();
    assert_eq!(outcome.csv, "w,▼\n");
    assert_eq!(outcome.state, State::Won);
}

#[test]
fn blank_grid_is_invalid() {
    assert_eq!(invalid(run("", Action::Stall)), "empty grid");
    assert_eq!(invalid(run(" \n \t", Action::Stall)), "empty grid");
}

#[test]
fn wide_grid_is_unsupported() {
    assert_eq!(
        unsupported(run(".,.,.,.,.,.,.,.,.,.,▲", Action::Stall)),
        "grid 11x1 exceeds 10x13"
    );
    let tall = "▲\n.\n.\n.\n.\n.\n.\n.\n.\n.\n.\n.\n.\n.";
    assert_eq!(unsupported(run(tall, Action::Stall)), "grid 1x14 exceeds 10x13");
}

#[test]
fn ragged_grid_is_invalid() {
    assert_eq!(invalid(run(".,.\n▲", Action::Stall)), "grid rows have different widths");
}

#[test]
fn unknown_symbol_is_unsupported() {
    assert_eq!(
        unsupported(run("X,▲", Action::Stall)),
        "unsupported cell symbol \"X\""
    );
    assert_eq!(
        unsupported(run("▲,a\"b", Action::Stall)),
        "unsupported cell symbol \"a\\\"b\""
    );
}

#[test]
fn second_player_is_unsupported() {
    assert_eq!(
        unsupported(run("▲,▼", Action::Stall)),
        "multiple players are not supported"
    );
}

#[test]
fn missing_player_is_unsupported() {
    assert_eq!(unsupported(run(".,R", Action::Stall)), "requires one player");
}

#[test]
fn too_many_rats_is_unsupported() {
    let grid = "R,R,R,R,R,R,R,R,R,R\nR,R,R,R,▲,.,.,.,.,.";
    assert_eq!(unsupported(run(grid, Action::Stall)), "more than 13 rats");
}

#[test]
fn first_error_in_reading_order_wins() {
    assert_eq!(
        unsupported(run("▲,▼,X", Action::Stall)),
        "multiple players are not supported"
    );
    assert_eq!(
        unsupported(run("X,▲,▼", Action::Stall)),
        "unsupported cell symbol \"X\""
    );
}

#[test]
fn error_messages() {
    assert_eq!(Error::Invalid("a".to_string()).message(), "a");
    assert_eq!(Error::Unsupported("b".to_string()).message(), "b");
}

#[test]
fn fixture_actions_and_states_parse() {
    let json = r#"{"move": "north", "state": "playing"}"#;
    assert!(matches!(parse_action(json), Ok(Action::MoveNorth)));
    assert!(matches!(parse_state(json), Ok(State::Playing)));
    assert!(matches!(parse_action(r#"{"move":"stall"}"#), Ok(Action::Stall)));
    assert!(matches!(parse_action(r#"{"move":"west"}"#), Ok(Action::MoveWest)));
    assert!(matches!(parse_state(r#"{"state":"gameover"}"#), Ok(State::GameOver)));
    assert!(matches!(parse_state(r#"{"state":"won"}"#), Ok(State::Won)));
}

fn message(result: Result<impl std::fmt::Debug, Error>) -> (bool, String) {
    match result {
        Err(Error::Invalid(m)) => (false, m),
        Err(Error::Unsupported(m)) => (true, m),
        Ok(v) => panic!("expected an error, got {v:?}"),
    }
}

#[test]
fn fixture_errors() {
    assert_eq!(
        message(parse_action(r#"{"p1": {"move": "north"}}"#)),
        (true, "two-player actions are not supported".to_string())
    );
    assert_eq!(
        message(parse_action(r#"{"state": "won"}"#)),
        (false, "missing \"move\"".to_string())
    );
    assert_eq!(
        message(parse_action(r#"{"move": }"#)),
        (false, "missing value for \"move\"".to_string())
    );
    assert_eq!(
        message(parse_action(r#"{"move": "nor"#)),
        (false, "unterminated value for \"move\"".to_string())
    );
    assert_eq!(
        message(parse_action(r#"{"move": "jump"}"#)),
        (false, "unsupported action \"jump\"".to_string())
    );
    assert_eq!(
        message(parse_state(r#"{"state": "lost"}"#)),
        (false, "unsupported state \"lost\"".to_string())
    );
}

#[test]
fn json_string_reads_the_next_quoted_value() {
    assert_eq!(json_string(r#"{"a": "b", "c": "d"}"#, "c").unwrap(), "d");
    assert_eq!(json_string(r#"{"a":"","c":"d"}"#, "a").unwrap(), "");
}

#[test]
fn csv_normalizes_spacing() {
    assert_eq!(normalize_csv(" a , b \r\n c,d \n"), "a,b\nc,d");
    assert_eq!(normalize_csv(""), "");
    assert_eq!(normalize_csv("x"), "x");
}

#[test]
fn csv_ignores_cells_past_the_visible_area() {
    let mut cells = vec![Cell::Empty; MAX_CELL_COUNT];
    cells[0] = Cell::Player;
    cells[1] = Cell::Wall;
    cells[3] = Cell::Web;
    cells[MAX_CELL_COUNT - 1] = Cell::Portal;
    let game = Game::from_scenario(
        2,
        2,
        cells,
        Position::new(0, 0),
        Direction::West,
        Vec::new(),
        Vec::new(),
        0,
    );
    assert_eq!(lib::scenario::to_csv(&game), "\u{25C4},#\n.,w\n");
}

#[test]
fn fixture_names_drop_the_json_suffix() {
    assert_eq!(fixture_name("rat_chase_i.json"), "rat_chase");
    assert_eq!(fixture_name("twice_i.json_i.json"), "twice");
    assert_eq!(fixture_name("plain.csv"), "plain.csv");
    assert_eq!(fixture_name("_i.json"), "");
}

#[test]
fn matching_fixture_passes() {
    let json = r#"{"move": "stall", "state": "playing"}"#;
    match judge_fixture("chase", json, ".,R,.\n.,.,.\n.,▲,.", " . , . , . \n.,R,.\n.,▲,.\n\n") {
        FixtureVerdict::Passed => {}
        other => panic!("expected a pass, got {other:?}"),
    }
}

#[test]
fn mismatched_fixture_fails_with_both_grids() {
    let json = r#"{"move": "stall", "state": "won"}"#;
    let verdict = judge_fixture("chase", json, ".,R,.\n.,.,.\n.,▲,.", ".,R,.\n.,.,.\n.,▲,.");
    match verdict {
        FixtureVerdict::Failed(message) => assert_eq!(
            message,
            "chase: expected state Won and grid\n.,R,.\n.,.,.\n.,▲,.\n\
             got state Playing and grid\n.,.,.\n.,R,.\n.,▲,."
        ),
        other => panic!("expected a failure, got {other:?}"),
    }
}

#[test]
fn unsupported_fixture_is_reported_apart() {
    let json = r#"{"p1": {"move": "north"}, "state": "playing"}"#;
    match judge_fixture("duo", json, ".,▲", ".,▲") {
        FixtureVerdict::Unsupported(reason) => {
            assert_eq!(reason, "two-player actions are not supported")
        }
        other => panic!("expected unsupported, got {other:?}"),
    }
    let json = r#"{"move": "stall", "state": "playing"}"#;
    match judge_fixture("two", json, "▲,▲", "▲,▲") {
        FixtureVerdict::Unsupported(reason) => {
            assert_eq!(reason, "multiple players are not supported")
        }
        other => panic!("expected unsupported, got {other:?}"),
    }
}

#[test]
fn malformed_fixture_fails() {
    match judge_fixture("odd", r#"{"move": "jump", "state": "playing"}"#, ".,▲", ".,▲") {
        FixtureVerdict::Failed(reason) => assert_eq!(reason, "unsupported action \"jump\""),
        other => panic!("expected a failure, got {other:?}"),
    }
    match judge_fixture("ragged", r#"{"move": "stall", "state": "playing"}"#, ".,▲\n.", ".") {
        FixtureVerdict::Failed(reason) => assert_eq!(reason, "grid rows have different widths"),
        other => panic!("expected a failure, got {other:?}"),
    }
}
