use lib::direction::Direction;
use lib::position::Position;

const ALL: [Direction; 8] = [
    Direction::East,
    Direction::West,
    Direction::North,
    Direction::South,
    Direction::Northeast,
    Direction::Northwest,
    Direction::Southeast,
    Direction::Southwest,
];

#[test]
fn opposite_is_an_involution() {
    for d in ALL {
        assert_eq!(d.opposite().opposite(), d);
        let (dx, dy) = d.delta();
        assert_eq!(d.opposite().delta(), (-dx, -dy));
    }
}

#[test]
fn ranks_follow_declaration_order() {
    for (i, d) in ALL.iter().enumerate() {
        assert_eq!(usize::from(d.tie_break_rank()), i);
    }
}

#[test]
fn diagonal_moves_cost_double() {
    assert_eq!(Direction::North.movement_cost(), 1);
    assert_eq!(Direction::Southwest.movement_cost(), 2);
    assert!(Direction::Northeast.is_diagonal());
    assert!(!Direction::West.is_diagonal());
}

#[test]
fn toward_points_one_step_on_each_axis() {
    let from = Position::new(2, 2);
    assert_eq!(Direction::toward(from, Position::new(9, 2)), Some(Direction::East));
    assert_eq!(Direction::toward(from, Position::new(0, 7)), Some(Direction::Southwest));
    assert_eq!(Direction::toward(from, Position::new(3, 0)), Some(Direction::Northeast));
    assert_eq!(Direction::toward(from, from), None);
}

#[test]
fn axis_parts_of_directions() {
    assert_eq!(Direction::Southeast.x_only(), Some(Direction::East));
    assert_eq!(Direction::Southeast.y_only(), Some(Direction::South));
    assert_eq!(Direction::North.x_only(), None);
    assert_eq!(Direction::West.y_only(), None);
}

#[test]
fn positions_step_and_measure() {
    let p = Position::new(3, 4);
    assert_eq!(p.offset(Direction::Northwest), Position::new(2, 3));
    assert_eq!(p.distance_squared(Position::new(0, 0)), 25);
}
