use lib::camera::{clamp_axis, Camera};
use lib::direction::Direction;
use lib::position::Position;

#[test]
fn camera_centers_a_world_that_is_narrower_than_the_screen() {
    let camera = Camera::following(Position::new(3, 6), 6, 8);
    assert_eq!(camera.x(), -28);
}

#[test]
fn camera_scrolls_and_clamps_to_world_bounds() {
    let mut camera = Camera::following(Position::new(3, 6), 6, 8);
    assert_eq!(camera.y(), 32);

    for _ in 0..20 {
        camera.scroll(Direction::North);
    }
    assert_eq!(camera.y(), 0);

    for _ in 0..20 {
        camera.scroll(Direction::South);
    }
    assert_eq!(camera.y(), 32);
}

#[test]
fn clamp_axis_cases() {
    // A world narrower than the screen is centered.
    assert_eq!(clamp_axis(50, 72, 128), -28);
    // A wider world clamps to its edges.
    assert_eq!(clamp_axis(-5, 144, 128), 0);
    assert_eq!(clamp_axis(40, 144, 128), 16);
    assert_eq!(clamp_axis(10, 144, 128), 10);
    // Clamping twice changes nothing.
    assert_eq!(clamp_axis(clamp_axis(40, 144, 128), 144, 128), 16);
}

#[test]
fn scroll_then_scroll_back_returns() {
    // The Webs level is 12 by 8 tiles: 144 by 96 pixels.
    let mut camera = Camera::following(Position::new(2, 6), 12, 8);
    assert_eq!(camera.x(), 0);
    assert_eq!(camera.y(), 32);
    camera.scroll(Direction::Northeast);
    assert_eq!((camera.x(), camera.y()), (6, 26));
    camera.scroll(Direction::Southwest);
    assert_eq!((camera.x(), camera.y()), (0, 32));
}

#[test]
fn follow_recenters() {
    let mut camera = Camera::following(Position::new(0, 0), 12, 13);
    assert_eq!((camera.x(), camera.y()), (0, 0));
    camera.follow(Position::new(11, 12));
    assert_eq!((camera.x(), camera.y()), (16, 92));
}
